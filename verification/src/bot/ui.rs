//! Texts, keyboards, callback payloads and formats that users and approvers share.

use vstd::prelude::*;
use vstd::utf8::{encode_utf8, is_ascii_chars, is_ascii_chars_encode_utf8};

use crate::outside::{url_normal, url_normal_text, utc_minute, utc_minute_text};
use crate::text::chars::{
    is_whitespace, strip_leading, strip_leading_char, strip_leading_starts, text_eq, trim, trim_end,
    trim_end_ends, trim_keeps, trim_start, trim_text,
};
use crate::text::chunks::{chunks, split_long};
use crate::text::number::{
    append_i64, append_u64, decimal, decimal_int, decimal_is_short, decimal_reads_back, i64_text,
    i64_reads_back, parse_i64, parse_u64, read_i64, read_u64, u64_reads_back, u64_text,
};
use crate::text::split::{first_is_find_char, split_once, split_once_at};

pub use crate::text::size::format_bytes;

verus! {

/// A request was filed.
pub const REQUEST_CREATED: &'static str = "Сейчас @aetoneilya решит, давать ли тебе доступ к VPN. Ответ придёт в течение 3 рабочих дней.";

/// A request was filed before.
pub const REQUEST_ALREADY_PENDING: &'static str = "У тебя уже есть заявка на доступ. Дождись решения администратора.";

/// The user has no username.
pub const NO_USERNAME: &'static str = "У тебя не установлен Telegram username. Установи @username в настройках и попробуй снова.";

/// The user may not use the bot.
pub const ACCESS_DENIED: &'static str = "Доступ запрещён.";

/// The message is no command.
pub const UNKNOWN_INPUT: &'static str = "Не понял. Доступные команды: /vpn, /guide, /meme.";

/// The next message may be a meme.
pub const MEME_PROMPT: &'static str = "Отправь мем следующим сообщением (стикер, фото, gif или видео). Возможно, это ускорит рассмотрение заявки — или я просто похихикаю.";

/// A meme came unasked.
pub const MEME_NOT_ARMED: &'static str = "Чтобы отправить мем админу, сначала вызови /meme.";

/// A meme was passed on.
pub const MEME_SENT: &'static str = "Мем будет обхихикан админом.😂👌";

/// A meme was liked.
pub const MEME_LIKE: &'static str = "ваш мем прикольный и смешной 👍(лайк)";

/// A meme was not liked.
pub const MEME_DISLIKE: &'static str = "сожалеем, уровень прикола вашего мема неудовлетворительный📉🫤";

/// Something failed.
pub const USER_ERROR: &'static str = "Что-то пошло не так. Попробуй позже.";

/// How to connect.
pub const GUIDE: &'static str = "📖 Как подключиться

1. Установи приложение:
• iPhone, iPad, Mac — Happ (App Store)
• Android — Happ или v2rayNG
• Windows — Happ или Hiddify

2. Скопируй ссылку подписки из сообщения бота. Открывать её не нужно.

3. В приложении добавь подписку из буфера обмена: «+» → «Добавить из буфера». Happ обычно сам предлагает это сделать.

4. Выбери профиль «🇳🇱 основной» и подключись.

Профили в подписке:
• 🇳🇱 основной — используй по умолчанию.
• 🇷🇺 белые списки — когда на мобильном интернете открываются только VK и Яндекс, а основной профиль не подключается.

Если перестало работать:
1. Обнови подписку в приложении (в Happ — потяни список вниз или нажми ↻).
2. Попробуй другой профиль.
3. Не помогло — нажми «🔄 Получить ссылку заново» или напиши /vpn.";

/// What stands between the title and the link of a subscription.
pub const SUBSCRIPTION_NOTE: &'static str = "\n\n👉 Это ссылка на подписку. Скопируй её и добавь в VPN-приложение как подписку — открывать ссылку не нужно.\n\nВ подписке 2 профиля:\n• 🇳🇱 основной — по умолчанию\n• 🇷🇺 белые списки — если на мобильном интернете работают только VK и Яндекс\n\nПодробнее — кнопка «📖 Инструкция» или /guide.\n\n";

/// The bytes that a message may take.
pub const LIMIT: usize = 3500;

/// What a button asks for. Its payload is a short `kind:argument`.
#[derive(Debug, Clone, Copy, PartialEq, Eq, Structural)]
pub enum Action {
    Guide,
    Resend,
    Approve(u64),
    Deny(u64),
    MemeLike(i64),
    MemeDislike(i64),
}

impl Action {
    /// The payload of an action.
    pub open spec fn payload(self) -> Seq<char> {
        match self {
            Action::Guide => "guide"@,
            Action::Resend => "resend"@,
            Action::Approve(id) => "approve:"@ + decimal(id as nat),
            Action::Deny(id) => "deny:"@ + decimal(id as nat),
            Action::MemeLike(chat) => "meme_like:"@ + decimal_int(chat as int),
            Action::MemeDislike(chat) => "meme_dislike:"@ + decimal_int(chat as int),
        }
    }

    /// Only approvers may ask for it.
    pub open spec fn admin_only(self) -> bool {
        !(self is Guide) && !(self is Resend)
    }
}

/// The action that a payload stands for: what is before the first colon, and what is after it.
pub open spec fn action_of(data: Seq<char>) -> Option<Action> {
    let (kind, arg) = match split_once(data, ':') {
        Some(parts) => parts,
        None => (data, ""@),
    };
    if kind == "guide"@ {
        Some(Action::Guide)
    } else if kind == "resend"@ {
        Some(Action::Resend)
    } else if kind == "approve"@ {
        match read_u64(arg) {
            Some(id) => Some(Action::Approve(id)),
            None => None,
        }
    } else if kind == "deny"@ {
        match read_u64(arg) {
            Some(id) => Some(Action::Deny(id)),
            None => None,
        }
    } else if kind == "meme_like"@ {
        match read_i64(arg) {
            Some(chat) => Some(Action::MemeLike(chat)),
            None => None,
        }
    } else if kind == "meme_dislike"@ {
        match read_i64(arg) {
            Some(chat) => Some(Action::MemeDislike(chat)),
            None => None,
        }
    } else {
        None
    }
}

proof fn first_colon(kind: Seq<char>, rest: Seq<char>, whole: Seq<char>)
    requires
        whole == kind.push(':') + rest,
        forall|i: int| 0 <= i < kind.len() ==> kind[i] != ':',
    ensures
        split_once(whole, ':') == Some((kind, rest)),
{
    assert forall|j: int| 0 <= j < kind.len() implies whole[j] != ':' by {
        assert(whole[j] == kind[j]);
    }
    first_is_find_char(whole, ':', kind.len() as int);
    assert(whole.take(kind.len() as int) =~= kind);
    assert(whole.skip(kind.len() as int + 1) =~= rest);
}

proof fn kinds_differ()
    ensures
        "approve:"@ == "approve"@.push(':'),
        "deny:"@ == "deny"@.push(':'),
        "meme_like:"@ == "meme_like"@.push(':'),
        "meme_dislike:"@ == "meme_dislike"@.push(':'),
        "guide"@.len() == 5,
        "resend"@.len() == 6,
        "approve"@.len() == 7,
        "deny"@.len() == 4,
        "meme_like"@.len() == 9,
        "meme_dislike"@.len() == 12,
        forall|i: int| 0 <= i < "guide"@.len() ==> "guide"@[i] != ':',
        forall|i: int| 0 <= i < "resend"@.len() ==> "resend"@[i] != ':',
        forall|i: int| 0 <= i < "approve"@.len() ==> "approve"@[i] != ':',
        forall|i: int| 0 <= i < "deny"@.len() ==> "deny"@[i] != ':',
        forall|i: int| 0 <= i < "meme_like"@.len() ==> "meme_like"@[i] != ':',
        forall|i: int| 0 <= i < "meme_dislike"@.len() ==> "meme_dislike"@[i] != ':',
        is_ascii_chars("guide"@),
        is_ascii_chars("resend"@),
        is_ascii_chars("approve:"@),
        is_ascii_chars("deny:"@),
        is_ascii_chars("meme_like:"@),
        is_ascii_chars("meme_dislike:"@),
{
    reveal_strlit("guide");
    reveal_strlit("resend");
    reveal_strlit("approve");
    reveal_strlit("deny");
    reveal_strlit("meme_like");
    reveal_strlit("meme_dislike");
    reveal_strlit("approve:");
    reveal_strlit("deny:");
    reveal_strlit("meme_like:");
    reveal_strlit("meme_dislike:");
    assert("approve:"@ =~= "approve"@.push(':'));
    assert("deny:"@ =~= "deny"@.push(':'));
    assert("meme_like:"@ =~= "meme_like"@.push(':'));
    assert("meme_dislike:"@ =~= "meme_dislike"@.push(':'));
}

/// A payload gives its action back.
pub proof fn payload_reads_back(action: Action)
    ensures
        action_of(action.payload()) == Some(action),
{
    kinds_differ();
    match action {
        Action::Guide => {
            first_is_find_char("guide"@, ':', 5);
        },
        Action::Resend => {
            first_is_find_char("resend"@, ':', 6);
        },
        Action::Approve(id) => {
            first_colon("approve"@, decimal(id as nat), action.payload());
            u64_reads_back(id);
        },
        Action::Deny(id) => {
            first_colon("deny"@, decimal(id as nat), action.payload());
            u64_reads_back(id);
        },
        Action::MemeLike(chat) => {
            first_colon("meme_like"@, decimal_int(chat as int), action.payload());
            i64_reads_back(chat);
        },
        Action::MemeDislike(chat) => {
            first_colon("meme_dislike"@, decimal_int(chat as int), action.payload());
            i64_reads_back(chat);
        },
    }
}

proof fn decimal_is_ascii(n: nat)
    requires
        n <= u64::MAX,
    ensures
        is_ascii_chars(decimal(n)),
        decimal(n).len() <= 20,
{
    decimal_reads_back(n);
    decimal_is_short(n);
}

proof fn decimal_int_is_ascii(n: i64)
    ensures
        is_ascii_chars(decimal_int(n as int)),
        decimal_int(n as int).len() <= 21,
{
    if n < 0 {
        decimal_is_ascii((-(n as int)) as nat);
        let digits = decimal((-(n as int)) as nat);
        assert(decimal_int(n as int) =~= seq!['-'] + digits);
        assert forall|i: int| 0 <= i < decimal_int(n as int).len() implies '\0' <= (
        #[trigger] decimal_int(n as int)[i]) <= '\u{7f}' by {
            if i > 0 {
                assert(decimal_int(n as int)[i] == digits[i - 1]);
            }
        }
    } else {
        decimal_is_ascii(n as nat);
    }
}

/// A payload takes at most 64 bytes, as Telegram asks.
pub proof fn payload_is_short(action: Action)
    ensures
        encode_utf8(action.payload()).len() <= 64,
{
    kinds_differ();
    match action {
        Action::Approve(id) => decimal_is_ascii(id as nat),
        Action::Deny(id) => decimal_is_ascii(id as nat),
        Action::MemeLike(chat) => decimal_int_is_ascii(chat),
        Action::MemeDislike(chat) => decimal_int_is_ascii(chat),
        _ => {},
    }
    assert(is_ascii_chars(action.payload()));
    is_ascii_chars_encode_utf8(action.payload());
}

/// Payloads are `kind:argument`, with the number of the request or of the chat, and different
/// actions have different payloads. What is only for approvers is every decision and every rating.
pub proof fn payloads_name_their_action(action: Action, other: Action, id: u64, chat: i64)
    ensures
        Action::Guide.payload() == "guide"@,
        Action::Resend.payload() == "resend"@,
        Action::Approve(id).payload() == "approve:"@ + decimal(id as nat),
        Action::Deny(id).payload() == "deny:"@ + decimal(id as nat),
        Action::MemeLike(chat).payload() == "meme_like:"@ + decimal_int(chat as int),
        Action::MemeDislike(chat).payload() == "meme_dislike:"@ + decimal_int(chat as int),
        action != other ==> action.payload() != other.payload(),
        action.admin_only() <==> action is Approve || action is Deny || action is MemeLike
            || action is MemeDislike,
{
    payload_reads_back(action);
    payload_reads_back(other);
}

impl Action {
    /// The payload of the action.
    pub fn encode(self) -> (r: String)
        ensures
            r@ == self.payload(),
    {
        match self {
            Action::Guide => "guide".to_string(),
            Action::Resend => "resend".to_string(),
            Action::Approve(id) => {
                let mut s = "approve:".to_string();
                append_u64(&mut s, id);
                s
            },
            Action::Deny(id) => {
                let mut s = "deny:".to_string();
                append_u64(&mut s, id);
                s
            },
            Action::MemeLike(chat) => {
                let mut s = "meme_like:".to_string();
                append_i64(&mut s, chat);
                s
            },
            Action::MemeDislike(chat) => {
                let mut s = "meme_dislike:".to_string();
                append_i64(&mut s, chat);
                s
            },
        }
    }

    /// The action that a payload stands for.
    pub fn decode(data: &str) -> (r: Option<Action>)
        ensures
            r == action_of(data@),
    {
        let (kind, arg) = match split_once_at(data, ':') {
            Some(parts) => parts,
            None => (data.to_string(), "".to_string()),
        };
        if text_eq(&kind, "guide") {
            Some(Action::Guide)
        } else if text_eq(&kind, "resend") {
            Some(Action::Resend)
        } else if text_eq(&kind, "approve") {
            match parse_u64(&arg) {
                Some(id) => Some(Action::Approve(id)),
                None => None,
            }
        } else if text_eq(&kind, "deny") {
            match parse_u64(&arg) {
                Some(id) => Some(Action::Deny(id)),
                None => None,
            }
        } else if text_eq(&kind, "meme_like") {
            match parse_i64(&arg) {
                Some(chat) => Some(Action::MemeLike(chat)),
                None => None,
            }
        } else if text_eq(&kind, "meme_dislike") {
            match parse_i64(&arg) {
                Some(chat) => Some(Action::MemeDislike(chat)),
                None => None,
            }
        } else {
            None
        }
    }

    /// Whether only approvers may ask for it.
    pub fn is_admin_only(self) -> (r: bool)
        ensures
            r == self.admin_only(),
    {
        match self {
            Action::Guide => false,
            Action::Resend => false,
            _ => true,
        }
    }
}

/// What a button does.
#[derive(Debug)]
pub enum ButtonTarget {
    /// It hands a payload back to the bot.
    Callback(String),
    /// It opens the Mini App at an address.
    WebApp(String),
}

/// A button.
#[derive(Debug)]
pub struct Button {
    pub label: String,
    pub target: ButtonTarget,
}

/// What a button does.
pub enum TargetModel {
    Callback(Seq<char>),
    WebApp(Seq<char>),
}

/// What a button is.
pub struct ButtonModel {
    pub label: Seq<char>,
    pub target: TargetModel,
}

impl View for Button {
    type V = ButtonModel;

    open spec fn view(&self) -> ButtonModel {
        ButtonModel {
            label: self.label@,
            target: match self.target {
                ButtonTarget::Callback(payload) => TargetModel::Callback(payload@),
                ButtonTarget::WebApp(url) => TargetModel::WebApp(url@),
            },
        }
    }
}

/// One row of buttons.
#[derive(Debug)]
pub struct Keyboard {
    pub row: Vec<Button>,
}

impl View for Keyboard {
    type V = Seq<ButtonModel>;

    open spec fn view(&self) -> Seq<ButtonModel> {
        Seq::new(self.row@.len(), |i: int| self.row@[i]@)
    }
}

/// A button for an action.
pub open spec fn action_button(action: Action, label: Seq<char>) -> ButtonModel {
    ButtonModel { label, target: TargetModel::Callback(action.payload()) }
}

impl Action {
    fn button(self, label: &str) -> (r: Button)
        ensures
            r@ == action_button(self, label@),
    {
        Button { label: label.to_string(), target: ButtonTarget::Callback(self.encode()) }
    }
}

fn two_buttons(a: Button, b: Button) -> (r: Keyboard)
    ensures
        r@ == seq![a@, b@],
{
    let mut row: Vec<Button> = Vec::new();
    let ghost first = a@;
    let ghost second = b@;
    row.push(a);
    row.push(b);
    let keyboard = Keyboard { row };
    assert(keyboard@ =~= seq![first, second]);
    keyboard
}

/// The buttons under a subscription.
pub fn subscription_keyboard() -> (r: Keyboard)
    ensures
        r@ == seq![
            action_button(Action::Guide, "📖 Инструкция"@),
            action_button(Action::Resend, "🔄 Получить ссылку заново"@),
        ],
{
    two_buttons(
        Action::Guide.button("📖 Инструкция"),
        Action::Resend.button("🔄 Получить ссылку заново"),
    )
}

/// The buttons that decide a request.
pub open spec fn approval_buttons(request_id: u64) -> Seq<ButtonModel> {
    seq![
        action_button(Action::Approve(request_id), "✅ Одобрить"@),
        action_button(Action::Deny(request_id), "❌ Отклонить"@),
    ]
}

/// The buttons that decide a request.
pub fn approval_keyboard(request_id: u64) -> (r: Keyboard)
    ensures
        r@ == approval_buttons(request_id),
{
    two_buttons(
        Action::Approve(request_id).button("✅ Одобрить"),
        Action::Deny(request_id).button("❌ Отклонить"),
    )
}

/// The buttons that rate a meme.
pub fn meme_keyboard(user_chat: i64) -> (r: Keyboard)
    ensures
        r@ == seq![
            action_button(Action::MemeLike(user_chat), "лайк"@),
            action_button(Action::MemeDislike(user_chat), "дизлайк"@),
        ],
{
    two_buttons(
        Action::MemeLike(user_chat).button("лайк"),
        Action::MemeDislike(user_chat).button("дизлайк"),
    )
}

/// The address of the Mini App, if one is configured and valid.
pub open spec fn web_app_address(public_url: Option<Seq<char>>) -> Option<Seq<char>> {
    match public_url {
        Some(url) => url_normal(url),
        None => None,
    }
}

/// The Mini App has an address exactly where one is configured that is valid.
pub proof fn mini_app_is_where_configured(url: Seq<char>)
    ensures
        web_app_address(None) is None,
        web_app_address(Some(url)) is Some <==> url_normal(url) is Some,
        web_app_address(Some(url)) == url_normal(url),
{
}

/// The address of the Mini App, if one is configured and valid.
pub fn web_app_info(public_url: Option<&str>) -> (r: Option<String>)
    ensures
        r.deep_view() == web_app_address(
            match public_url {
                Some(url) => Some(url@),
                None => None,
            },
        ),
{
    match public_url {
        Some(url) => url_normal_text(url),
        None => None,
    }
}

/// The button that opens the Mini App.
pub fn web_app_keyboard(address: Option<String>) -> (r: Option<Keyboard>)
    ensures
        r is Some <==> address is Some,
        r matches Some(keyboard) ==> keyboard@ == seq![
            ButtonModel {
                label: "🔐 Открыть VPN"@,
                target: TargetModel::WebApp(address->0@),
            },
        ],
{
    match address {
        Some(url) => {
            let ghost model = url@;
            let mut row: Vec<Button> = Vec::new();
            row.push(
                Button { label: "🔐 Открыть VPN".to_string(), target: ButtonTarget::WebApp(url) },
            );
            let keyboard = Keyboard { row };
            assert(keyboard@ =~= seq![
                ButtonModel {
                    label: "🔐 Открыть VPN"@,
                    target: TargetModel::WebApp(model),
                },
            ]);
            Some(keyboard)
        },
        None => None,
    }
}

/// The message with a subscription.
pub open spec fn subscription_message(title: Seq<char>, url: Seq<char>) -> Seq<char> {
    title + SUBSCRIPTION_NOTE@ + url
}

/// The message with a subscription.
pub fn subscription_text(title: &str, url: &str) -> (r: String)
    ensures
        r@ == subscription_message(title@, url@),
{
    let mut text = title.to_string();
    text.append(SUBSCRIPTION_NOTE);
    text.append(url);
    text
}

/// The messages that a long text is sent as.
pub fn long_messages(text: &str) -> (r: Vec<String>)
    ensures
        r.deep_view() == chunks(text@, LIMIT as nat),
{
    split_long(text, LIMIT)
}

/// A login as it is shown: without surrounding whitespace, with one `@` before it.
pub open spec fn shown_login(login: Seq<char>) -> Seq<char> {
    "@"@ + strip_leading(trim(login), '@')
}

/// A login that is shown starts with one `@`, and showing it again changes nothing.
pub proof fn shown_login_is_stable(login: Seq<char>)
    ensures
        shown_login(login).len() > 0,
        shown_login(login)[0] == '@',
        shown_login(login).len() > 1 ==> shown_login(login)[1] != '@',
        shown_login(shown_login(login)) == shown_login(login),
{
    reveal_strlit("@");
    let shown = shown_login(login);
    let name = strip_leading(trim(login), '@');
    trim_end_ends(trim_start(login));
    strip_leading_starts(trim(login), '@');
    trim_keeps(shown);
    assert(shown.drop_first() =~= name);
    assert(strip_leading(shown, '@') == strip_leading(name, '@'));
    assert(strip_leading(name, '@') == name);
}

/// A login as it is shown.
pub fn format_login(login: &str) -> (r: String)
    ensures
        r@ == shown_login(login@),
{
    let mut text = "@".to_string();
    text.append(&strip_leading_char(&trim_text(login), '@'));
    text
}

/// A length of time, in days and hours or in hours and minutes.
pub open spec fn duration_text(secs: u64) -> Seq<char> {
    let days = secs as nat / 86_400;
    let hours = secs as nat % 86_400 / 3600;
    let minutes = secs as nat % 3600 / 60;
    if days > 0 {
        decimal(days) + " д "@ + decimal(hours) + " ч"@
    } else {
        decimal(hours) + " ч "@ + decimal(minutes) + " мин"@
    }
}

/// A length of time is shown in whole units: of a day or more, the days and the hours of the last
/// day; of less, the hours and the minutes of the last hour.
pub proof fn durations_are_split_into_units(
    secs: u64,
    days: nat,
    hours: nat,
    minutes: nat,
    rest: nat,
)
    requires
        secs == ((days * 24 + hours) * 60 + minutes) * 60 + rest,
        hours < 24,
        minutes < 60,
        rest < 60,
    ensures
        days > 0 ==> duration_text(secs) == decimal(days) + " д "@ + decimal(hours) + " ч"@,
        days == 0 ==> duration_text(secs) == decimal(hours) + " ч "@ + decimal(minutes) + " мин"@,
{
    let n = secs as int;
    assert(n == 86_400 * days + 3600 * hours + 60 * minutes + rest);
    assert(n / 86_400 == days && n % 86_400 == 3600 * hours + 60 * minutes + rest);
    assert((3600 * hours + 60 * minutes + rest) / 3600 == hours);
    assert(n % 3600 == 60 * minutes + rest);
    assert((60 * minutes + rest) / 60 == minutes);
}

/// A moment is shown as chrono writes it, and as its number where it is out of chrono's range.
pub proof fn moments_are_dates_where_they_can_be(secs: i64)
    ensures
        utc_minute(secs) matches Some(date) ==> unix_text(secs) == date,
        utc_minute(secs) is None ==> unix_text(secs) == decimal_int(secs as int),
{
}

/// The message with a subscription starts with its title and ends in the address.
pub proof fn subscription_message_ends_in_the_address(
    title: Seq<char>,
    url: Seq<char>,
    other: Seq<char>,
)
    ensures
        title.is_prefix_of(subscription_message(title, url)),
        url.is_suffix_of(subscription_message(title, url)),
        url != other ==> subscription_message(title, url) != subscription_message(title, other),
{
    let start = title + SUBSCRIPTION_NOTE@;
    assert(title =~= (start + url).subrange(0, title.len() as int));
    assert(url =~= (start + url).subrange(start.len() as int, (start + url).len() as int));
    if start + url == start + other {
        assert(url =~= (start + url).skip(start.len() as int));
        assert(other =~= (start + other).skip(start.len() as int));
    }
}

/// A login is shown as `@` and the login itself, where it is one already.
pub proof fn plain_login_is_shown_with_an_at_sign(login: Seq<char>)
    requires
        login.len() > 0,
        !is_whitespace(login[0]),
        !is_whitespace(login.last()),
        login[0] != '@',
    ensures
        shown_login(login) == "@"@ + login,
        shown_login("@"@ + login) == "@"@ + login,
        shown_login(" "@ + login + " "@) == "@"@ + login,
{
    reveal_strlit("@");
    reveal_strlit(" ");
    let named = "@"@ + login;
    let spaced = " "@ + login + " "@;
    assert(trim_start(login) == login);
    assert(trim_end(login) == login);
    assert(trim_start(named) == named);
    assert(named.last() == login.last());
    assert(trim_end(named) == named);
    assert(named.drop_first() =~= login);
    assert(strip_leading(named, '@') == strip_leading(login, '@'));
    assert(spaced.drop_first() =~= login + " "@);
    assert(trim_start(spaced) == trim_start(login + " "@));
    assert((login + " "@)[0] == login[0]);
    assert(trim_start(login + " "@) == login + " "@);
    assert((login + " "@).drop_last() =~= login);
    assert(trim_end(login + " "@) == trim_end(login));
}

/// A length of time, as people read it.
pub fn format_duration(secs: u64) -> (r: String)
    ensures
        r@ == duration_text(secs),
{
    let days: u64 = secs / 86_400;
    let hours: u64 = secs % 86_400 / 3600;
    let minutes: u64 = secs % 3600 / 60;
    if days > 0 {
        let mut text = u64_text(days);
        text.append(" д ");
        append_u64(&mut text, hours);
        text.append(" ч");
        text
    } else {
        let mut text = u64_text(hours);
        text.append(" ч ");
        append_u64(&mut text, minutes);
        text.append(" мин");
        text
    }
}

/// A moment in Unix seconds, as a date where it is one.
pub open spec fn unix_text(secs: i64) -> Seq<char> {
    match utc_minute(secs) {
        Some(date) => date,
        None => decimal_int(secs as int),
    }
}

/// A moment in Unix seconds, as people read it.
pub fn format_unix(secs: i64) -> (r: String)
    ensures
        r@ == unix_text(secs),
{
    match utc_minute_text(secs) {
        Some(date) => date,
        None => i64_text(secs),
    }
}

} // verus!
