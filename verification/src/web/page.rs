//! The page that hands a subscription over to an app.

use vstd::prelude::*;

use crate::outside::{json_string_text, quoted};
use crate::panel::client::subscription_address;
use crate::text::chars::{
    chars_of, has_prefix, occurs_at, parts_stand_at_the_ends, replace, replace_text,
    replacing_changes_the_occurrences, starts_with,
};

verus! {

/// A character as it stands in HTML.
pub open spec fn html_char(c: char) -> Seq<char> {
    if c == '&' {
        "&amp;"@
    } else if c == '<' {
        "&lt;"@
    } else if c == '>' {
        "&gt;"@
    } else if c == '"' {
        "&quot;"@
    } else if c == '\'' {
        "&#39;"@
    } else {
        seq![c]
    }
}

/// A text as it stands in HTML.
pub open spec fn html_text(s: Seq<char>) -> Seq<char>
    decreases s.len(),
{
    if s.len() == 0 {
        seq![]
    } else {
        html_text(s.drop_last()) + html_char(s.last())
    }
}

/// The character could open or close markup.
pub open spec fn is_markup(c: char) -> bool {
    c == '<' || c == '>' || c == '"' || c == '\''
}

/// A text as it stands in a script: as a JSON string in which no tag can be closed.
pub open spec fn script_text(s: Seq<char>) -> Seq<char> {
    replace(quoted(s), "</"@, "<\\/"@)
}

/// The address at which the app takes a subscription.
pub open spec fn deeplink(url: Seq<char>) -> Seq<char> {
    "happ://add/"@ + url
}

/// The page for a subscription.
pub open spec fn page_for(template: Seq<char>, url: Seq<char>) -> Seq<char> {
    replace(
        replace(
            replace(template, "{{DEEPLINK_JSON}}"@, script_text(deeplink(url))),
            "{{DEEPLINK_HTML}}"@,
            html_text(deeplink(url)),
        ),
        "{{URL_HTML}}"@,
        html_text(url),
    )
}

/// The app is handed the whole address behind its own scheme, so that two addresses never become
/// one.
pub proof fn app_gets_the_whole_address(url: Seq<char>, other: Seq<char>)
    ensures
        "happ://add/"@.is_prefix_of(deeplink(url)),
        url.is_suffix_of(deeplink(url)),
        deeplink(url).len() == 11 + url.len(),
        url != other ==> deeplink(url) != deeplink(other),
{
    reveal_strlit("happ://add/");
    parts_stand_at_the_ends("happ://add/"@, url, other);
}

/// What stands in HTML for a text opens and closes no markup.
pub proof fn html_text_is_plain(s: Seq<char>)
    ensures
        forall|i: int| 0 <= i < html_text(s).len() ==> !is_markup(#[trigger] html_text(s)[i]),
    decreases s.len(),
{
    if s.len() > 0 {
        html_text_is_plain(s.drop_last());
        reveal_strlit("&amp;");
        reveal_strlit("&lt;");
        reveal_strlit("&gt;");
        reveal_strlit("&quot;");
        reveal_strlit("&#39;");
        let head = html_text(s.drop_last());
        let last = html_char(s.last());
        assert forall|i: int| 0 <= i < html_text(s).len() implies !is_markup(
            #[trigger] html_text(s)[i],
        ) by {
            if i < head.len() {
                assert(html_text(s)[i] == head[i]);
            } else {
                assert(html_text(s)[i] == last[i - head.len()]);
            }
        }
    }
}

/// The text holds a `<` directly before a `/`.
pub open spec fn closes_tag(s: Seq<char>, i: int) -> bool {
    0 <= i && i + 1 < s.len() && s[i] == '<' && s[i + 1] == '/'
}

proof fn replaced_closes_nothing(s: Seq<char>)
    ensures
        s.len() > 0 ==> replace(s, "</"@, "<\\/"@).len() > 0 && replace(s, "</"@, "<\\/"@)[0]
            == s[0],
        s.len() == 0 ==> replace(s, "</"@, "<\\/"@).len() == 0,
        forall|i: int| !#[trigger] closes_tag(replace(s, "</"@, "<\\/"@), i),
    decreases s.len(),
{
    reveal_strlit("</");
    reveal_strlit("<\\/");
    let p = "</"@;
    let w = "<\\/"@;
    let all = replace(s, p, w);
    if s.len() > 0 {
        if occurs_at(s, p, 0) {
            let rest = replace(s.skip(2), p, w);
            replaced_closes_nothing(s.skip(2));
            assert(all == w + rest);
            assert(s[0] == p[0]) by {
                assert(s.subrange(0, 2)[0] == s[0]);
            }
            assert forall|i: int| !#[trigger] closes_tag(all, i) by {
                if closes_tag(all, i) {
                    if i >= 3 {
                        assert(closes_tag(rest, i - 3));
                    }
                }
            }
        } else {
            let rest = replace(s.drop_first(), p, w);
            replaced_closes_nothing(s.drop_first());
            assert(all == seq![s[0]] + rest);
            assert forall|i: int| !#[trigger] closes_tag(all, i) by {
                if closes_tag(all, i) {
                    if i >= 1 {
                        assert(closes_tag(rest, i - 1));
                    } else {
                        assert(rest[0] == s[1]);
                        assert(s.subrange(0, 2) =~= p);
                    }
                }
            }
        }
    }
}

/// What stands in a script for a text closes no tag.
pub proof fn script_text_closes_no_tag(s: Seq<char>)
    ensures
        forall|i: int| !#[trigger] closes_tag(script_text(s), i),
{
    replaced_closes_nothing(quoted(s));
}

/// Text goes into HTML character by character: the five characters with a meaning there as
/// entities, and everything else as it is.
pub proof fn html_keeps_what_means_nothing(a: Seq<char>, b: Seq<char>)
    ensures
        html_text(a + b) == html_text(a) + html_text(b),
        html_text(seq!['&']) == "&amp;"@,
        html_text(seq!['<']) == "&lt;"@,
        html_text(seq!['>']) == "&gt;"@,
        html_text(seq!['"']) == "&quot;"@,
        html_text(seq!['\'']) == "&#39;"@,
        (forall|i: int| 0 <= i < a.len() ==> !is_markup(#[trigger] a[i]) && a[i] != '&')
            ==> html_text(a) == a,
    decreases b.len(), a.len(),
{
    reveal_with_fuel(html_text, 2);
    assert(seq!['&'].drop_last() =~= seq![]);
    assert(seq!['<'].drop_last() =~= seq![]);
    assert(seq!['>'].drop_last() =~= seq![]);
    assert(seq!['"'].drop_last() =~= seq![]);
    assert(seq!['\''].drop_last() =~= seq![]);
    assert(html_text(seq!['&']) =~= "&amp;"@);
    assert(html_text(seq!['<']) =~= "&lt;"@);
    assert(html_text(seq!['>']) =~= "&gt;"@);
    assert(html_text(seq!['"']) =~= "&quot;"@);
    assert(html_text(seq!['\'']) =~= "&#39;"@);
    if b.len() > 0 {
        assert((a + b).drop_last() =~= a + b.drop_last());
        html_keeps_what_means_nothing(a, b.drop_last());
        assert(html_text(a) + (html_text(b.drop_last()) + html_char(b.last())) =~= html_text(a)
            + html_text(b.drop_last()) + html_char(b.last()));
    } else {
        assert(a + b =~= a);
        assert(html_text(a) + html_text(b) =~= html_text(a));
        if (forall|i: int| 0 <= i < a.len() ==> !is_markup(#[trigger] a[i]) && a[i] != '&')
            && a.len() > 0 {
            let head = a.drop_last();
            assert forall|i: int| 0 <= i < head.len() implies !is_markup(#[trigger] head[i])
                && head[i] != '&' by {
                assert(!is_markup(a[i]) && a[i] != '&');
            }
            html_keeps_what_means_nothing(head, seq![]);
            assert(!is_markup(a[a.len() - 1]) && a[a.len() - 1] != '&');
            assert(head + seq![a.last()] =~= a);
        }
    }
}

/// A text without `<` stands in a script as the JSON string that it is.
pub proof fn script_keeps_the_string(s: Seq<char>)
    requires
        forall|i: int| 0 <= i < quoted(s).len() ==> #[trigger] quoted(s)[i] != '<',
    ensures
        script_text(s) == quoted(s),
{
    reveal_strlit("</");
    replacing_changes_the_occurrences(quoted(s), "</"@, seq![], "<\\/"@);
}

/// The page is the template with the address in its place, and the address at which the app takes
/// it: a placeholder in a text without further braces is replaced, and the text around it stays.
pub proof fn page_puts_the_address_in_its_place(
    before: Seq<char>,
    after: Seq<char>,
    url: Seq<char>,
)
    requires
        forall|i: int| 0 <= i < before.len() ==> #[trigger] before[i] != '{',
        forall|i: int| 0 <= i < after.len() ==> #[trigger] after[i] != '{',
        forall|i: int| 0 <= i < html_text(url).len() ==> #[trigger] html_text(url)[i] != '{',
        forall|i: int|
            0 <= i < html_text("happ://add/"@ + url).len() ==> #[trigger] html_text(
                "happ://add/"@ + url,
            )[i] != '{',
        forall|i: int|
            0 <= i < script_text("happ://add/"@ + url).len() ==> #[trigger] script_text(
                "happ://add/"@ + url,
            )[i] != '{',
    ensures
        page_for(before + "{{URL_HTML}}"@ + after, url) == before + html_text(url) + after,
        page_for(before + "{{DEEPLINK_HTML}}"@ + after, url) == before + html_text(
            "happ://add/"@ + url,
        ) + after,
        page_for(before + "{{DEEPLINK_JSON}}"@ + after, url) == before + script_text(
            "happ://add/"@ + url,
        ) + after,
        page_for(before, url) == before,
{
    reveal_strlit("{{DEEPLINK_JSON}}");
    reveal_strlit("{{DEEPLINK_HTML}}");
    reveal_strlit("{{URL_HTML}}");
    let json = "{{DEEPLINK_JSON}}"@;
    let html = "{{DEEPLINK_HTML}}"@;
    let plain = "{{URL_HTML}}"@;
    let link = "happ://add/"@ + url;
    let a = script_text(link);
    let b = html_text(link);
    let c = html_text(url);
    replacing_changes_the_occurrences(before, json, seq![], a);
    replacing_changes_the_occurrences(before, html, seq![], b);
    replacing_changes_the_occurrences(before, plain, seq![], c);
    replacing_changes_the_occurrences(after, json, seq![], a);
    replacing_changes_the_occurrences(after, html, seq![], b);
    replacing_changes_the_occurrences(after, plain, seq![], c);
    replacing_changes_the_occurrences(before, json, after, a);
    replacing_changes_the_occurrences(before + a + after, html, seq![], b);
    replacing_changes_the_occurrences(before + a + after, plain, seq![], c);
    other_placeholder_stays(before, html, after, json, a, 11);
    replacing_changes_the_occurrences(before, html, after, b);
    replacing_changes_the_occurrences(before + b + after, plain, seq![], c);
    other_placeholder_stays(before, plain, after, json, a, 2);
    other_placeholder_stays(before, plain, after, html, b, 2);
    replacing_changes_the_occurrences(before, plain, after, c);
}

proof fn other_placeholder_stays(
    before: Seq<char>,
    kept: Seq<char>,
    after: Seq<char>,
    p: Seq<char>,
    with: Seq<char>,
    k: int,
)
    requires
        forall|i: int| 0 <= i < before.len() ==> #[trigger] before[i] != '{',
        forall|i: int| 0 <= i < after.len() ==> #[trigger] after[i] != '{',
        kept.len() >= 3,
        p.len() >= 3,
        kept[0] == '{' && kept[1] == '{',
        p[0] == '{' && p[1] == '{' && p[2] != '{',
        forall|i: int| 2 <= i < kept.len() ==> #[trigger] kept[i] != '{',
        0 <= k < kept.len(),
        k < p.len(),
        kept[k] != p[k],
    ensures
        replace(before + kept + after, p, with) == before + kept + after,
    decreases before.len(),
{
    let s = before + kept + after;
    if before.len() > 0 {
        let rest = before.drop_first();
        assert forall|i: int| 0 <= i < rest.len() implies #[trigger] rest[i] != '{' by {
            assert(before[i + 1] != '{');
        }
        other_placeholder_stays(rest, kept, after, p, with, k);
        assert(before[0] != '{');
        assert(!starts_with(s, p)) by {
            if starts_with(s, p) {
                assert(s.subrange(0, p.len() as int)[0] == s[0]);
            }
        }
        assert(s.drop_first() =~= rest + kept + after);
        assert(seq![s[0]] + (rest + kept + after) =~= s);
    } else {
        assert(s =~= kept + after);
        assert(!starts_with(s, p)) by {
            if starts_with(s, p) {
                assert(s.subrange(0, p.len() as int)[k] == kept[k]);
            }
        }
        let one = s.drop_first();
        assert(one[1] == kept[2]);
        assert(!starts_with(one, p)) by {
            if starts_with(one, p) {
                assert(one.subrange(0, p.len() as int)[1] == one[1]);
            }
        }
        let two = one.drop_first();
        assert(two =~= kept.skip(2) + after);
        assert forall|i: int| 0 <= i < two.len() implies #[trigger] two[i] != p[0] by {
            if i < kept.len() - 2 {
                assert(two[i] == kept[i + 2]);
            } else {
                assert(two[i] == after[i - (kept.len() - 2)]);
            }
        }
        replacing_changes_the_occurrences(two, p, seq![], with);
        assert(replace(one, p, with) =~= seq![one[0]] + two);
        assert(replace(s, p, with) =~= seq![s[0]] + (seq![one[0]] + two));
        assert(seq![s[0]] + (seq![one[0]] + two) =~= s);
    }
}

/// The address of a subscription is always taken.
pub proof fn own_subscription_is_known(base: Seq<char>, sub_id: Seq<char>)
    ensures
        starts_with(subscription_address(base, sub_id), base),
{
    let url = subscription_address(base, sub_id);
    assert(url.subrange(0, base.len() as int) =~= base);
}

fn append_html(out: &mut String, c: char)
    ensures
        final(out)@ == old(out)@ + html_char(c),
{
    if c == '&' {
        out.append("&amp;");
    } else if c == '<' {
        out.append("&lt;");
    } else if c == '>' {
        out.append("&gt;");
    } else if c == '"' {
        out.append("&quot;");
    } else if c == '\'' {
        out.append("&#39;");
    } else {
        let ghost before = out@;
        out.push(c);
        assert(out@ =~= before + seq![c]);
    }
}

/// A text as it stands in HTML.
pub fn html_escape(raw: &str) -> (r: String)
    ensures
        r@ == html_text(raw@),
{
    let v = chars_of(raw);
    let mut out = "".to_string();
    proof {
        reveal_strlit("");
    }
    let mut i: usize = 0;
    assert(out@ =~= html_text(v@.take(0)));
    while i < v.len()
        invariant
            i <= v@.len(),
            out@ == html_text(v@.take(i as int)),
        decreases v@.len() - i,
    {
        assert(v@.take(i + 1).drop_last() =~= v@.take(i as int));
        append_html(&mut out, v[i]);
        i = i + 1;
    }
    assert(v@.take(i as int) =~= v@);
    out
}

fn script_string(s: &str) -> (r: String)
    ensures
        r@ == script_text(s@),
{
    proof {
        reveal_strlit("</");
    }
    replace_text(&json_string_text(s), "</", "<\\/")
}

/// The page that hands a subscription over to an app. Only the subscriptions of this panel are
/// taken, so that the page leads nowhere else.
pub fn open_in_app(subscription_base_url: &str, url: &str, template: &str) -> (r: Option<String>)
    ensures
        r is Some <==> starts_with(url@, subscription_base_url@),
        r matches Some(page) ==> page@ == page_for(template@, url@),
{
    if !has_prefix(url, subscription_base_url) {
        return None;
    }
    let mut link = "happ://add/".to_string();
    link.append(url);
    proof {
        reveal_strlit("{{DEEPLINK_JSON}}");
        reveal_strlit("{{DEEPLINK_HTML}}");
        reveal_strlit("{{URL_HTML}}");
    }
    let page = replace_text(template, "{{DEEPLINK_JSON}}", &script_string(&link));
    let page = replace_text(&page, "{{DEEPLINK_HTML}}", &html_escape(&link));
    Some(replace_text(&page, "{{URL_HTML}}", &html_escape(url)))
}

} // verus!
