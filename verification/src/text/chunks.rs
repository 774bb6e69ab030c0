//! Splitting a long text at its line ends.

use vstd::prelude::*;
use vstd::utf8::encode_utf8;

use super::split::{join, lines, split_lines};

verus! {

/// The bytes that a text takes.
pub open spec fn byte_len(s: Seq<char>) -> nat {
    encode_utf8(s).len()
}

/// Finished chunks and the one that is being filled.
pub struct Filling {
    pub done: Seq<Seq<char>>,
    pub chunk: Seq<char>,
}

/// The lines put into chunks, in order: a line that would make a chunk longer than `limit` bytes
/// starts a new one.
pub open spec fn filled(lines: Seq<Seq<char>>, limit: nat) -> Filling
    decreases lines.len(),
{
    if lines.len() == 0 {
        Filling { done: seq![], chunk: seq![] }
    } else {
        filled(lines.drop_last(), limit).with_line(lines.last(), limit)
    }
}

impl Filling {
    /// The same, with one more line.
    pub open spec fn with_line(self, line: Seq<char>, limit: nat) -> Filling {
        if self.chunk.len() == 0 {
            Filling { done: self.done, chunk: line }
        } else if byte_len(self.chunk) + byte_len(line) + 1 > limit {
            Filling { done: self.done.push(self.chunk), chunk: line }
        } else {
            Filling { done: self.done, chunk: self.chunk + seq!['\n'] + line }
        }
    }

    /// All chunks.
    pub open spec fn all(self) -> Seq<Seq<char>> {
        if self.chunk.len() == 0 {
            self.done
        } else {
            self.done.push(self.chunk)
        }
    }
}

/// The chunks of a text.
pub open spec fn chunks(text: Seq<char>, limit: nat) -> Seq<Seq<char>> {
    filled(lines(text), limit).all()
}

/// The chunks of a text that may fit into one, whatever it holds.
pub open spec fn chunks_or_whole(text: Seq<char>, limit: nat) -> Seq<Seq<char>> {
    if byte_len(text) <= limit {
        seq![text]
    } else {
        chunks(text, limit)
    }
}

/// The characters of the texts, one text after the other, without line ends.
pub open spec fn characters(texts: Seq<Seq<char>>) -> Seq<char>
    decreases texts.len(),
{
    if texts.len() == 0 {
        seq![]
    } else {
        characters(texts.drop_last()) + texts.last().filter(|c: char| c != '\n')
    }
}

/// A chunk is short enough, or it is one of the lines.
pub open spec fn is_fair_chunk(chunk: Seq<char>, lines: Seq<Seq<char>>, limit: nat) -> bool {
    byte_len(chunk) <= limit || lines.contains(chunk)
}

proof fn byte_len_adds(a: Seq<char>, b: Seq<char>)
    ensures
        byte_len(a + b) == byte_len(a) + byte_len(b),
    decreases a.len(),
{
    reveal_with_fuel(encode_utf8, 2);
    if a.len() == 0 {
        assert(a + b =~= b);
    } else {
        assert((a + b).drop_first() =~= a.drop_first() + b);
        assert((a + b)[0] == a[0]);
        byte_len_adds(a.drop_first(), b);
    }
}

proof fn newline_takes_one_byte()
    ensures
        byte_len(seq!['\n']) == 1,
{
    let s = seq!['\n'];
    vstd::utf8::is_ascii_chars_encode_utf8(s);
}

proof fn filling_is_fair(lines: Seq<Seq<char>>, limit: nat)
    ensures
        forall|i: int|
            0 <= i < filled(lines, limit).done.len() ==> {
                let chunk = #[trigger] filled(lines, limit).done[i];
                chunk.len() > 0 && is_fair_chunk(chunk, lines, limit)
            },
        filled(lines, limit).chunk.len() > 0 ==> is_fair_chunk(
            filled(lines, limit).chunk,
            lines,
            limit,
        ),
    decreases lines.len(),
{
    if lines.len() > 0 {
        let head = lines.drop_last();
        let before = filled(head, limit);
        let after = filled(lines, limit);
        filling_is_fair(head, limit);
        assert forall|c: Seq<char>| head.contains(c) implies #[trigger] lines.contains(c) by {
            let j = choose|j: int| 0 <= j < head.len() && head[j] == c;
            assert(lines[j] == c);
        }
        assert(lines[lines.len() - 1] == lines.last());
        assert forall|i: int| 0 <= i < after.done.len() implies {
            let chunk = #[trigger] after.done[i];
            chunk.len() > 0 && is_fair_chunk(chunk, lines, limit)
        } by {
            if i < before.done.len() {
                assert(after.done[i] == before.done[i]);
            }
        }
        if before.chunk.len() > 0 && byte_len(before.chunk) + byte_len(lines.last()) + 1 <= limit {
            byte_len_adds(before.chunk + seq!['\n'], lines.last());
            byte_len_adds(before.chunk, seq!['\n']);
            newline_takes_one_byte();
        }
    }
}

/// No chunk is empty, and none is longer than the limit unless it is a single line of the text.
pub proof fn chunks_are_fair(text: Seq<char>, limit: nat)
    ensures
        forall|i: int|
            0 <= i < chunks(text, limit).len() ==> {
                let chunk = #[trigger] chunks(text, limit)[i];
                chunk.len() > 0 && is_fair_chunk(chunk, lines(text), limit)
            },
{
    filling_is_fair(lines(text), limit);
}

proof fn filter_adds(a: Seq<char>, b: Seq<char>, p: spec_fn(char) -> bool)
    ensures
        (a + b).filter(p) == a.filter(p) + b.filter(p),
    decreases b.len(),
{
    reveal(Seq::filter);
    if b.len() == 0 {
        assert(a + b =~= a);
        assert(b.filter(p) =~= seq![]);
    } else {
        assert((a + b).drop_last() =~= a + b.drop_last());
        filter_adds(a, b.drop_last(), p);
    }
}

proof fn filling_keeps(lines: Seq<Seq<char>>, limit: nat)
    ensures
        characters(filled(lines, limit).done.push(filled(lines, limit).chunk)) == characters(lines),
    decreases lines.len(),
{
    let kept = |c: char| c != '\n';
    let after = filled(lines, limit);
    assert(after.done.push(after.chunk).drop_last() =~= after.done);
    reveal(Seq::filter);
    if lines.len() == 0 {
        assert(Seq::<char>::empty().filter(kept) =~= seq![]);
        assert(characters(after.done) =~= seq![]);
    } else {
        let head = lines.drop_last();
        let before = filled(head, limit);
        let line = lines.last();
        filling_keeps(head, limit);
        assert(before.done.push(before.chunk).drop_last() =~= before.done);
        if before.chunk.len() == 0 {
            assert(before.chunk.filter(kept) =~= seq![]);
            assert(characters(head) =~= characters(before.done));
        } else if byte_len(before.chunk) + byte_len(line) + 1 > limit {
            assert(after.done == before.done.push(before.chunk));
        } else {
            filter_adds(before.chunk + seq!['\n'], line, kept);
            filter_adds(before.chunk, seq!['\n'], kept);
            assert(seq!['\n'].drop_last() =~= seq![]);
            assert(seq!['\n'].drop_last().filter(kept) =~= seq![]);
            assert(seq!['\n'].filter(kept) =~= seq![]);
            assert(after.chunk.filter(kept) =~= before.chunk.filter(kept) + line.filter(kept));
            assert(characters(before.done) + (before.chunk.filter(kept) + line.filter(kept))
                =~= characters(before.done) + before.chunk.filter(kept) + line.filter(kept));
        }
    }
}

/// No character of a line is lost, and the order stays: but for line ends, the chunks hold what the
/// lines hold.
pub proof fn chunks_keep_the_text(text: Seq<char>, limit: nat)
    ensures
        characters(chunks(text, limit)) == characters(lines(text)),
{
    let kept = |c: char| c != '\n';
    let f = filled(lines(text), limit);
    filling_keeps(lines(text), limit);
    reveal(Seq::filter);
    if f.chunk.len() == 0 {
        assert(f.done.push(f.chunk).drop_last() =~= f.done);
        assert(f.chunk.filter(kept) =~= seq![]);
        assert(characters(f.done) =~= characters(f.done.push(f.chunk)));
    }
}

proof fn fitting_lines_fill_one_chunk(lines: Seq<Seq<char>>, limit: nat)
    requires
        byte_len(join(lines, seq!['\n'])) <= limit,
        forall|i: int| 0 <= i < lines.len() ==> (#[trigger] lines[i]).len() > 0,
    ensures
        filled(lines, limit) == (Filling { done: seq![], chunk: join(lines, seq!['\n']) }),
        lines.len() > 0 ==> join(lines, seq!['\n']).len() > 0,
    decreases lines.len(),
{
    if lines.len() > 0 {
        let head = lines.drop_last();
        let line = lines.last();
        assert forall|i: int| 0 <= i < head.len() implies (#[trigger] head[i]).len() > 0 by {
            assert(lines[i].len() > 0);
        }
        assert(lines[lines.len() - 1].len() > 0);
        if head.len() > 0 {
            byte_len_adds(join(head, seq!['\n']) + seq!['\n'], line);
            byte_len_adds(join(head, seq!['\n']), seq!['\n']);
            newline_takes_one_byte();
            fitting_lines_fill_one_chunk(head, limit);
        } else {
            assert(head =~= seq![]);
            assert(filled(head, limit) == (Filling { done: seq![], chunk: seq![] }));
        }
    }
}

/// A text that fits is one message: lines that together are short enough are not torn apart.
pub proof fn short_text_is_one_chunk(text: Seq<char>, limit: nat)
    requires
        byte_len(join(lines(text), seq!['\n'])) <= limit,
        forall|i: int| 0 <= i < lines(text).len() ==> (#[trigger] lines(text)[i]).len() > 0,
        lines(text).len() > 0,
    ensures
        chunks(text, limit) == seq![join(lines(text), seq!['\n'])],
        byte_len(text) <= limit ==> chunks_or_whole(text, limit) == seq![text],
{
    fitting_lines_fill_one_chunk(lines(text), limit);
    assert(Seq::<Seq<char>>::empty().push(join(lines(text), seq!['\n'])) =~= seq![
        join(lines(text), seq!['\n']),
    ]);
}

/// A text of at most the limit stays whole, and a longer one is cut at its line ends.
pub proof fn only_long_texts_are_cut(text: Seq<char>, limit: nat)
    ensures
        encode_utf8(text).len() <= limit ==> chunks_or_whole(text, limit) == seq![text],
        encode_utf8(text).len() > limit ==> chunks_or_whole(text, limit) == chunks(text, limit),
{
}

/// Splits a text at its line ends into chunks of at most `limit` bytes, as far as its lines allow.
pub fn split_long(text: &str, limit: usize) -> (r: Vec<String>)
    ensures
        r.deep_view() == chunks(text@, limit as nat),
{
    let all = split_lines(text);
    let ghost model = all.deep_view();
    let mut done: Vec<String> = Vec::new();
    let mut chunk = "".to_string();
    proof {
        reveal_strlit("");
    }
    assert(done.deep_view() =~= filled(model.take(0), limit as nat).done);
    assert(chunk@ =~= filled(model.take(0), limit as nat).chunk);
    let mut i: usize = 0;
    while i < all.len()
        invariant
            i <= all@.len(),
            model == all.deep_view(),
            done.deep_view() == filled(model.take(i as int), limit as nat).done,
            chunk@ == filled(model.take(i as int), limit as nat).chunk,
        decreases all@.len() - i,
    {
        let ghost before = filled(model.take(i as int), limit as nat);
        let ghost after = filled(model.take(i + 1), limit as nat);
        assert(model.take(i + 1).drop_last() =~= model.take(i as int));
        assert(model[i as int] == all@[i as int]@);
        assert(after == before.with_line(model[i as int], limit as nat));
        let line = &all[i];
        if !chunk.as_str().is_empty() {
            let chunk_bytes: usize = chunk.as_str().as_bytes().len();
            let line_bytes: usize = line.as_str().as_bytes().len();
            if exceeds(chunk_bytes, line_bytes, limit) {
                done.push(chunk);
                chunk = "".to_string();
                proof {
                    reveal_strlit("");
                }
                assert(done.deep_view() =~= before.done.push(before.chunk));
                chunk.append(line);
                assert(chunk@ =~= line@);
            } else {
                chunk.push('\n');
                assert(chunk@ =~= before.chunk + seq!['\n']);
                chunk.append(line);
            }
        } else {
            chunk.append(line);
            assert(chunk@ =~= line@);
        }
        i = i + 1;
    }
    assert(model.take(i as int) =~= model);
    if !chunk.as_str().is_empty() {
        let ghost before = done.deep_view();
        let ghost last = chunk@;
        done.push(chunk);
        assert(done.deep_view() =~= before.push(last));
    }
    done
}

fn exceeds(a: usize, b: usize, limit: usize) -> (r: bool)
    ensures
        r == (a + b + 1 > limit),
{
    a >= limit || b >= limit - a
}

/// The whole text where it fits into `limit` bytes, and its chunks otherwise.
pub fn split_text_chunks(text: &str, limit: usize) -> (r: Vec<String>)
    ensures
        r.deep_view() == chunks_or_whole(text@, limit as nat),
{
    if text.as_bytes().len() <= limit {
        let mut whole: Vec<String> = Vec::new();
        whole.push(text.to_string());
        assert(whole.deep_view() =~= seq![text@]);
        whole
    } else {
        split_long(text, limit)
    }
}

} // verus!
