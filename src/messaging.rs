//! The command schema carried inside a box, and its text form: a context
//! word, an action and an optional application, joined by `SEPARATOR`.

use vstd::prelude::*;
use vstd::string::*;
use vstd::utf8::*;

verus! {

/// Joins the fields of a command's text form.
pub const SEPARATOR: &'static str = "\u{fe34}";

/// The character `SEPARATOR` consists of.
pub open spec fn sep() -> char {
    '\u{fe34}'
}

/// Context word of database commands.
pub open spec fn dbms_word() -> Seq<char> {
    seq!['d', 'b', 'm', 's']
}

/// Context word of cache commands.
pub open spec fn cache_word() -> Seq<char> {
    seq!['c', 'a', 'c', 'h', 'e']
}

/// A command as the agent understands it.
#[derive(Clone, Debug, PartialEq, Eq)]
pub enum Message {
    Dbms { action: String, application: Option<String> },
    Cache { action: String, application: Option<String> },
    Invalid,
}

/// The mathematical value of a `Message`.
pub enum MessageModel {
    Dbms { action: Seq<char>, application: Option<Seq<char>> },
    Cache { action: Seq<char>, application: Option<Seq<char>> },
    Invalid,
}

/// The text of an optional field.
pub open spec fn opt_text(o: Option<String>) -> Option<Seq<char>> {
    match o {
        Some(s) => Some(s@),
        None => None,
    }
}

impl View for Message {
    type V = MessageModel;

    open spec fn view(&self) -> MessageModel {
        match self {
            Message::Dbms { action, application } => MessageModel::Dbms {
                action: action@,
                application: opt_text(*application),
            },
            Message::Cache { action, application } => MessageModel::Cache {
                action: action@,
                application: opt_text(*application),
            },
            Message::Invalid => MessageModel::Invalid,
        }
    }
}

/// The fields of `s` between occurrences of the separator, in order; a text
/// with no separator is a single field, the empty text a single empty field.
pub open spec fn split_fields_of(s: Seq<char>) -> Seq<Seq<char>>
    decreases s.len(),
{
    if s.len() == 0 {
        seq![Seq::empty()]
    } else {
        let init = split_fields_of(s.drop_last());
        if s.last() == sep() {
            init.push(Seq::empty())
        } else {
            init.update(init.len() - 1, init.last().push(s.last()))
        }
    }
}

/// The command that a sequence of fields stands for: the first selects the
/// kind, the second is the action, the third, if any, the application.
pub open spec fn message_of_fields(parts: Seq<Seq<char>>) -> MessageModel {
    if parts.len() < 2 {
        MessageModel::Invalid
    } else {
        let application = if parts.len() >= 3 {
            Some(parts[2])
        } else {
            None
        };
        if parts[0] == dbms_word() {
            MessageModel::Dbms { action: parts[1], application }
        } else if parts[0] == cache_word() {
            MessageModel::Cache { action: parts[1], application }
        } else {
            MessageModel::Invalid
        }
    }
}

/// The command that a text stands for.
pub open spec fn parse_text(s: Seq<char>) -> MessageModel {
    message_of_fields(split_fields_of(s))
}

/// The text form of a command; `Invalid` has the empty text.
pub open spec fn serialize(m: MessageModel) -> Seq<char> {
    match m {
        MessageModel::Dbms { action, application } => dbms_word() + seq![sep()] + action
            + tail_of(application),
        MessageModel::Cache { action, application } => cache_word() + seq![sep()] + action
            + tail_of(application),
        MessageModel::Invalid => Seq::empty(),
    }
}

/// The separator and the application, where there is one.
pub open spec fn tail_of(application: Option<Seq<char>>) -> Seq<char> {
    match application {
        Some(a) => seq![sep()] + a,
        None => Seq::empty(),
    }
}

/// Every text has at least one field.
proof fn lemma_split_nonempty(s: Seq<char>)
    ensures
        split_fields_of(s).len() >= 1,
    decreases s.len(),
{
    if s.len() > 0 {
        lemma_split_nonempty(s.drop_last());
    }
}

/// Whether `s` is free of the separator, so that it stays one field.
pub open spec fn no_separator(s: Seq<char>) -> bool {
    forall|i: int| 0 <= i < s.len() ==> s[i] != sep()
}

/// Text free of the separator lengthens the last field.
proof fn lemma_split_extend(a: Seq<char>, b: Seq<char>)
    requires
        no_separator(b),
    ensures
        split_fields_of(a + b) == split_fields_of(a).update(
            split_fields_of(a).len() - 1,
            split_fields_of(a).last() + b,
        ),
    decreases b.len(),
{
    lemma_split_nonempty(a);
    let fa = split_fields_of(a);
    if b.len() == 0 {
        assert(a + b =~= a);
        assert(fa.last() + b =~= fa.last());
        assert(fa.update(fa.len() - 1, fa.last() + b) =~= fa);
    } else {
        let b0 = b.drop_last();
        lemma_split_extend(a, b0);
        assert((a + b).drop_last() =~= a + b0);
        assert((a + b).last() == b.last());
        assert(b.last() != sep());
        let init = split_fields_of(a + b0);
        assert(init.last() == fa.last() + b0);
        assert(init.last().push(b.last()) =~= fa.last() + b);
        assert(init.update(init.len() - 1, init.last().push(b.last())) =~= fa.update(
            fa.len() - 1,
            fa.last() + b,
        ));
    }
}

/// A separator closes the last field and opens an empty one.
proof fn lemma_split_sep(a: Seq<char>)
    ensures
        split_fields_of(a + seq![sep()]) == split_fields_of(a).push(Seq::empty()),
{
    assert((a + seq![sep()]).drop_last() =~= a);
}

/// The fields of a text made of separator-free parts joined by separators.
proof fn lemma_split_serialized(ctx: Seq<char>, action: Seq<char>, application: Option<Seq<char>>)
    requires
        no_separator(ctx),
        no_separator(action),
        application matches Some(app) ==> no_separator(app),
    ensures
        split_fields_of(ctx + seq![sep()] + action + tail_of(application)) == match application {
            Some(app) => seq![ctx, action, app],
            None => seq![ctx, action],
        },
{
    let e = Seq::<char>::empty();
    lemma_split_extend(e, ctx);
    assert(e + ctx =~= ctx);
    assert(split_fields_of(ctx) =~= seq![ctx]);
    lemma_split_sep(ctx);
    let a1 = ctx + seq![sep()];
    lemma_split_extend(a1, action);
    assert(split_fields_of(a1 + action) =~= seq![ctx, action]);
    match application {
        Some(app) => {
            let a2 = a1 + action;
            lemma_split_sep(a2);
            lemma_split_extend(a2 + seq![sep()], app);
            assert(split_fields_of(a2 + seq![sep()] + app) =~= seq![ctx, action, app]);
            assert(a2 + tail_of(application) =~= a2 + seq![sep()] + app);
        },
        None => {
            assert(a1 + action + tail_of(application) =~= a1 + action);
        },
    }
}

/// Parsing the text form of a database or cache command gives the command
/// back, provided that neither its action nor its application holds the
/// separator.
pub proof fn lemma_parse_serialize(m: MessageModel)
    requires
        !(m is Invalid),
        m matches MessageModel::Dbms { action, application } ==> no_separator(action) && (
        application matches Some(app) ==> no_separator(app)),
        m matches MessageModel::Cache { action, application } ==> no_separator(action) && (
        application matches Some(app) ==> no_separator(app)),
    ensures
        parse_text(serialize(m)) == m,
{
    match m {
        MessageModel::Dbms { action, application } => {
            lemma_split_serialized(dbms_word(), action, application);
        },
        MessageModel::Cache { action, application } => {
            lemma_split_serialized(cache_word(), action, application);
            assert(cache_word() != dbms_word()) by {
                assert(cache_word().len() != dbms_word().len());
            }
        },
        MessageModel::Invalid => {},
    }
}

/// Relies on `String::from_utf8`: the bytes are taken as text exactly when
/// they are well-formed UTF-8, and the text is what they encode.
#[verifier::external_body]
pub(crate) fn text_from_utf8(bytes: Vec<u8>) -> (r: Option<String>)
    ensures
        r is Some <==> valid_utf8(bytes@),
        r matches Some(s) ==> s@ == decode_utf8(bytes@),
{
    String::from_utf8(bytes).ok()
}

/// Whether two texts hold the same characters.
fn same_text(a: &str, b: &str) -> (r: bool)
    ensures
        r == (a@ == b@),
{
    let n = a.unicode_len();
    if n != b.unicode_len() {
        return false;
    }
    let mut i: usize = 0;
    while i < n
        invariant
            0 <= i <= n,
            n == a@.len(),
            n == b@.len(),
            forall|j: int| 0 <= j < i ==> a@[j] == b@[j],
        decreases n - i,
    {
        if a.get_char(i) != b.get_char(i) {
            return false;
        }
        i = i + 1;
    }
    assert(a@ =~= b@);
    true
}

/// Splits a text into the fields between occurrences of `SEPARATOR`.
pub fn split_fields<'a>(text: &'a str) -> (r: Vec<&'a str>)
    ensures
        r@.len() == split_fields_of(text@).len(),
        forall|i: int| 0 <= i < r@.len() ==> (#[trigger] r@[i])@ == split_fields_of(text@)[i],
{
    let n = text.unicode_len();
    let mut parts: Vec<&'a str> = Vec::new();
    let mut start: usize = 0;
    let mut i: usize = 0;
    proof {
        assert(text@.subrange(0, 0) =~= Seq::<char>::empty());
    }
    while i < n
        invariant
            0 <= start <= i <= n,
            n == text@.len(),
            parts@.len() + 1 == split_fields_of(text@.subrange(0, i as int)).len(),
            forall|j: int|
                0 <= j < parts@.len() ==> (#[trigger] parts@[j])@ == split_fields_of(
                    text@.subrange(0, i as int),
                )[j],
            split_fields_of(text@.subrange(0, i as int)).last() == text@.subrange(
                start as int,
                i as int,
            ),
        decreases n - i,
    {
        let c = text.get_char(i);
        let ghost prev = text@.subrange(0, i as int);
        let ghost next = text@.subrange(0, i + 1);
        proof {
            assert(next.drop_last() =~= prev);
            assert(next.last() == c);
            lemma_split_nonempty(prev);
        }
        if c == '\u{fe34}' {
            let field = text.substring_char(start, i);
            parts.push(field);
            start = i + 1;
            proof {
                assert(text@.subrange(start as int, i + 1) =~= Seq::<char>::empty());
            }
        } else {
            proof {
                assert(text@.subrange(start as int, i + 1) =~= text@.subrange(
                    start as int,
                    i as int,
                ).push(c));
            }
        }
        i = i + 1;
    }
    let last = text.substring_char(start, n);
    parts.push(last);
    proof {
        assert(text@.subrange(0, n as int) =~= text@);
    }
    parts
}

impl Message {
    /// The command that a sequence of fields stands for: `Invalid` unless
    /// there are at least two fields and the first is a known context word.
    pub fn new(parts: Vec<&str>) -> (r: Message)
        ensures
            r@ == message_of_fields(parts@.map_values(|p: &str| p@)),
    {
        let ghost fields = parts@.map_values(|p: &str| p@);
        if parts.len() < 2 {
            return Message::Invalid;
        }
        let application = if parts.len() >= 3 {
            Some(parts[2].to_owned())
        } else {
            None
        };
        let action = parts[1].to_owned();
        proof {
            reveal_strlit("dbms");
            reveal_strlit("cache");
            assert("dbms"@ =~= dbms_word());
            assert("cache"@ =~= cache_word());
        }
        if same_text(parts[0], "dbms") {
            Message::Dbms { action, application }
        } else if same_text(parts[0], "cache") {
            Message::Cache { action, application }
        } else {
            Message::Invalid
        }
    }

    /// Parses the text form of a command.
    pub fn from(raw_message: &str) -> (r: Message)
        ensures
            r@ == parse_text(raw_message@),
    {
        let parts = split_fields(raw_message);
        proof {
            assert(parts@.map_values(|p: &str| p@) =~= split_fields_of(raw_message@));
        }
        Message::new(parts)
    }

    /// The text form of the command. `Invalid` has the empty text, which
    /// names no command: the text form of `Invalid` cannot be told apart
    /// from a garbled one.
    pub fn to_payload(self) -> (r: String)
        ensures
            r@ == serialize(self@),
    {
        proof {
            reveal_strlit("\u{fe34}");
            reveal_strlit("dbms");
            reveal_strlit("cache");
            assert("dbms"@ =~= dbms_word());
            assert("cache"@ =~= cache_word());
        }
        match self {
            Message::Dbms { action, application } => join_fields("dbms", &action, &application),
            Message::Cache { action, application } => join_fields("cache", &action, &application),
            Message::Invalid => String::new(),
        }
    }
}

/// `context`, `action` and the application, if any, joined by `SEPARATOR`.
fn join_fields(context: &str, action: &String, application: &Option<String>) -> (r: String)
    ensures
        r@ == context@ + seq![sep()] + action@ + tail_of(opt_text(*application)),
{
    proof {
        reveal_strlit("\u{fe34}");
    }
    let mut text = String::from_str(context);
    text.append(SEPARATOR);
    text.append(action.as_str());
    match application {
        Some(app) => {
            text.append(SEPARATOR);
            text.append(app.as_str());
            assert(text@ =~= context@ + seq![sep()] + action@ + (seq![sep()] + app@));
        },
        None => {
            assert(text@ =~= context@ + seq![sep()] + action@ + Seq::<char>::empty());
        },
    }
    text
}

} // verus!
