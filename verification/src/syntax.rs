//! Calls into `syn` for the pieces of Rust syntax that the attributes embed,
//! and a record of what those calls answered.
//!
//! What `syn` answers for a text depends on the token implementation that
//! `proc-macro2` picks at run time (the compiler's inside a macro, its own
//! elsewhere), so the answers are not a function of the text. The library
//! reads each text at most once and keeps the answer in [`Reads`]; its
//! contracts then hold for every [`Reader`] that agrees with that record.
//!
//! `proc-macro2` checks a text with its own lexer before it hands the text to
//! the compiler's, and turns a panic of the compiler's lexer into an error,
//! so a text that does not lex comes back as an error.

use vstd::prelude::*;

use quote::ToTokens;

use crate::util::str_eq;

verus! {

/// A piece of text handed to `syn`, and as what it is read.
pub enum Query {
    /// A path, such as the value of a `crate` option.
    Path(String),
    /// A predicate of a `where` clause.
    Predicate(String),
    /// A type.
    Type(String),
}

/// Mathematical value of a [`Query`].
pub enum QueryV {
    Path(Seq<char>),
    Predicate(Seq<char>),
    Type(Seq<char>),
}

impl View for Query {
    type V = QueryV;

    open spec fn view(&self) -> QueryV {
        match self {
            Query::Path(t) => QueryV::Path(t@),
            Query::Predicate(t) => QueryV::Predicate(t@),
            Query::Type(t) => QueryV::Type(t@),
        }
    }
}

/// What `syn` answered to a [`Query`].
pub enum Answer {
    /// The text is a path: whether it starts with `::`, and the text of
    /// each segment.
    Path { leading_colon: bool, segments: Vec<String> },
    /// The text is a `where` predicate, bounding a type or not.
    Predicate { bounds_type: bool },
    /// The text is a type.
    Type,
    /// The text is not what was asked, with `syn`'s message.
    Refused { message: String },
}

/// Mathematical value of an [`Answer`].
pub enum AnswerV {
    Path { leading_colon: bool, segments: Seq<Seq<char>> },
    Predicate { bounds_type: bool },
    Type,
    Refused { message: Seq<char> },
}

impl View for Answer {
    type V = AnswerV;

    open spec fn view(&self) -> AnswerV {
        match self {
            Answer::Path { leading_colon, segments } => AnswerV::Path {
                leading_colon: *leading_colon,
                segments: segments@.map_values(|s: String| s@),
            },
            Answer::Predicate { bounds_type } => AnswerV::Predicate { bounds_type: *bounds_type },
            Answer::Type => AnswerV::Type,
            Answer::Refused { message } => AnswerV::Refused { message: message@ },
        }
    }
}

/// `c` may start an ASCII identifier.
pub open spec fn ident_start(c: char) -> bool {
    (('a' as u32) <= (c as u32) <= ('z' as u32)) || (('A' as u32) <= (c as u32) <= ('Z' as u32))
        || c == '_'
}

/// `c` may continue an ASCII identifier.
pub open spec fn ident_continue(c: char) -> bool {
    ident_start(c) || (('0' as u32) <= (c as u32) <= ('9' as u32))
}

/// The words that `syn` refuses as an identifier: the keywords, and `_`.
pub open spec fn reserved_words() -> Seq<Seq<char>> {
    seq![
        "_"@, "abstract"@, "as"@, "async"@, "await"@, "become"@, "box"@, "break"@, "const"@,
        "continue"@, "crate"@, "do"@, "dyn"@, "else"@, "enum"@, "extern"@, "false"@, "final"@,
        "fn"@, "for"@, "if"@, "impl"@, "in"@, "let"@, "loop"@, "macro"@, "match"@, "mod"@,
        "move"@, "mut"@, "override"@, "priv"@, "pub"@, "ref"@, "return"@, "Self"@, "self"@,
        "static"@, "struct"@, "super"@, "trait"@, "true"@, "try"@, "type"@, "typeof"@,
        "unsafe"@, "unsized"@, "use"@, "virtual"@, "where"@, "while"@, "yield"@,
    ]
}

/// `t` is a plain identifier: ASCII, starting with a letter or `_`, and not
/// a reserved word.
pub open spec fn is_plain_ident(t: Seq<char>) -> bool {
    &&& t.len() > 0
    &&& ident_start(t[0])
    &&& forall|i: int| 1 <= i < t.len() ==> ident_continue(#[trigger] t[i])
    &&& !reserved_words().contains(t)
}

/// `t` holds no `:`.
pub open spec fn has_no_colon(t: Seq<char>) -> bool {
    forall|i: int| 0 <= i < t.len() ==> #[trigger] t[i] != ':'
}

/// `t` is a plain identifier bounded by another, as `T : Copy`.
pub open spec fn is_simple_bound(t: Seq<char>) -> bool {
    exists|x: Seq<char>, y: Seq<char>|
        is_plain_ident(x) && is_plain_ident(y) && t == #[trigger] (x + " : "@ + y)
}

/// A simple bound holds a `:`.
pub proof fn lemma_bound_has_colon(t: Seq<char>)
    requires
        is_simple_bound(t),
    ensures
        !has_no_colon(t),
{
    let (x, y) = choose|x: Seq<char>, y: Seq<char>|
        is_plain_ident(x) && is_plain_ident(y) && t == #[trigger] (x + " : "@ + y);
    reveal_strlit(" : ");
    let sep = " : "@;
    let k = x.len() as int + 1;
    assert(sep[1] == ':');
    assert((x + sep)[k] == sep[1]);
    assert((x + sep + y)[k] == (x + sep)[k]);
    assert(t[k] == ':');
}

/// A plain identifier holds no `:`.
pub proof fn lemma_ident_no_colon(t: Seq<char>)
    requires
        is_plain_ident(t),
    ensures
        has_no_colon(t),
{
    assert forall|i: int| 0 <= i < t.len() implies #[trigger] t[i] != ':' by {
        if i == 0 {
            assert(ident_start(t[0]));
        } else {
            assert(ident_continue(t[i]));
        }
    }
}

/// What `syn` may answer to `q`, whatever token implementation is in use: a
/// path has at least one segment and no segment is empty; a plain
/// identifier is a path of that one segment and a type, and not a
/// predicate; a text without `:` is not a predicate; and a plain
/// identifier bounded by another is a predicate that bounds a type.
pub open spec fn answer_fits(q: QueryV, a: AnswerV) -> bool {
    match q {
        QueryV::Path(t) => (match a {
            AnswerV::Path { segments, .. } => segments.len() > 0 && forall|k: int|
                0 <= k < segments.len() ==> (#[trigger] segments[k]).len() > 0,
            AnswerV::Refused { .. } => true,
            _ => false,
        }) && (is_plain_ident(t) ==> a == AnswerV::Path {
            leading_colon: false,
            segments: seq![t],
        }),
        QueryV::Predicate(t) => (a is Predicate || a is Refused) && (has_no_colon(t) ==> a is Refused)
            && (is_simple_bound(t) ==> a == AnswerV::Predicate { bounds_type: true }),
        QueryV::Type(t) => (a is Type || a is Refused) && (is_plain_ident(t) ==> a is Type),
    }
}

/// Possible answers of `syn`, one for each query.
pub type Reader = spec_fn(QueryV) -> AnswerV;

/// Each answer of `rd` is one that `syn` may give.
pub open spec fn reader_ok(rd: Reader) -> bool {
    forall|q: QueryV| answer_fits(q, #[trigger] rd(q))
}

/// The answer used where a query was never asked.
pub open spec fn unasked(q: QueryV) -> AnswerV {
    match q {
        QueryV::Path(t) => if is_plain_ident(t) {
            AnswerV::Path { leading_colon: false, segments: seq![t] }
        } else {
            AnswerV::Refused { message: seq![] }
        },
        QueryV::Predicate(t) => if is_simple_bound(t) {
            AnswerV::Predicate { bounds_type: true }
        } else {
            AnswerV::Refused { message: seq![] }
        },
        QueryV::Type(_) => AnswerV::Type,
    }
}

/// The queries asked so far, each with its answer.
pub struct Reads {
    pub entries: Vec<(Query, Answer)>,
}

impl View for Reads {
    type V = Seq<(QueryV, AnswerV)>;

    open spec fn view(&self) -> Seq<(QueryV, AnswerV)> {
        self.entries@.map_values(|e: (Query, Answer)| (e.0@, e.1@))
    }
}

impl Reads {
    /// No query is recorded twice, and each answer fits its query.
    pub open spec fn wf(self) -> bool {
        &&& forall|i: int, j: int|
            0 <= i < j < self@.len() ==> (#[trigger] self@[i]).0 != (#[trigger] self@[j]).0
        &&& forall|i: int| 0 <= i < self@.len() ==> answer_fits(#[trigger] self@[i].0, self@[i].1)
    }

    /// `rd` gives each recorded answer.
    pub open spec fn agrees(self, rd: Reader) -> bool {
        forall|i: int| 0 <= i < self@.len() ==> rd((#[trigger] self@[i]).0) == self@[i].1
    }

    /// `self` keeps what `before` recorded, and may record more.
    pub open spec fn extends(self, before: Reads) -> bool {
        &&& before@.len() <= self@.len()
        &&& forall|i: int| 0 <= i < before@.len() ==> self@[i] == #[trigger] before@[i]
    }

    /// The reader that gives the recorded answers, and [`unasked`] for the
    /// rest.
    pub open spec fn reader(self) -> Reader {
        |q: QueryV|
            if exists|i: int| 0 <= i < self@.len() && (#[trigger] self@[i]).0 == q {
                self@[choose|i: int| 0 <= i < self@.len() && (#[trigger] self@[i]).0 == q].1
            } else {
                unasked(q)
            }
    }

    /// A well-formed record is agreed with by a reader of possible answers.
    pub proof fn lemma_reader(self)
        requires
            self.wf(),
        ensures
            reader_ok(self.reader()),
            self.agrees(self.reader()),
    {
        let rd = self.reader();
        assert forall|q: QueryV| answer_fits(q, #[trigger] rd(q)) by {
            if exists|i: int| 0 <= i < self@.len() && (#[trigger] self@[i]).0 == q {
                let i = choose|i: int| 0 <= i < self@.len() && (#[trigger] self@[i]).0 == q;
                assert(answer_fits(self@[i].0, self@[i].1));
            } else {
                if let QueryV::Predicate(t) = q {
                    if is_simple_bound(t) {
                        lemma_bound_has_colon(t);
                    }
                }
                if let QueryV::Path(t) = q {
                    if is_plain_ident(t) {
                        assert(seq![t][0] == t);
                    }
                }
            }
        }
        assert forall|i: int| 0 <= i < self@.len() implies rd((#[trigger] self@[i]).0)
            == self@[i].1 by {
            let q = self@[i].0;
            let j = choose|j: int| 0 <= j < self@.len() && (#[trigger] self@[j]).0 == q;
            if i != j {
                if i < j {
                    assert(self@[i].0 != self@[j].0);
                } else {
                    assert(self@[j].0 != self@[i].0);
                }
            }
        }
    }

    /// A reader that agrees with a record agrees with each record it
    /// extends, and extending is transitive.
    pub proof fn lemma_extends(before: Reads, after: Reads)
        requires
            after.extends(before),
        ensures
            forall|rd: Reader| #[trigger] after.agrees(rd) ==> before.agrees(rd),
            forall|x: Reads| #[trigger] before.extends(x) ==> after.extends(x),
    {
        assert forall|rd: Reader| #[trigger] after.agrees(rd) implies before.agrees(rd) by {
            assert forall|i: int| 0 <= i < before@.len() implies rd((#[trigger] before@[i]).0)
                == before@[i].1 by {
                assert(after@[i] == before@[i]);
            }
        }
        assert forall|x: Reads| #[trigger] before.extends(x) implies after.extends(x) by {
            assert forall|i: int| 0 <= i < x@.len() implies after@[i] == #[trigger] x@[i] by {
                assert(before@[i] == x@[i]);
            }
        }
    }

    /// An empty record.
    pub fn new() -> (r: Reads)
        ensures
            r.wf(),
            r@ == Seq::<(QueryV, AnswerV)>::empty(),
    {
        let r = Reads { entries: Vec::new() };
        assert(r@ =~= Seq::<(QueryV, AnswerV)>::empty());
        r
    }

    /// Asks `syn` about `q`, unless it was asked before, and records the
    /// answer.
    pub fn read(&mut self, q: &Query) -> (a: Answer)
        requires
            old(self).wf(),
        ensures
            final(self).wf(),
            final(self).extends(*old(self)),
            forall|rd: Reader| #[trigger] final(self).agrees(rd) ==> rd(q@) == a@,
    {
        let mut i: usize = 0;
        while i < self.entries.len()
            invariant
                i <= self@.len(),
                self.wf(),
                self.entries@.len() == self@.len(),
                forall|j: int| 0 <= j < i ==> (#[trigger] self@[j]).0 != q@,
            decreases self.entries.len() - i,
        {
            assert(self@[i as int] == (self.entries@[i as int].0@, self.entries@[i as int].1@));
            if query_eq(&self.entries[i].0, q) {
                let a = clone_answer(&self.entries[i].1);
                assert(self.extends(*self));
                return a;
            }
            i = i + 1;
        }
        let a = ask(q);
        let a2 = clone_answer(&a);
        let ghost before = *self;
        let q2 = clone_query(q);
        self.entries.push((q2, a2));
        proof {
            assert(self@ =~= before@.push((q@, a@)));
            assert(self@[before@.len() as int] == (q@, a@));
        }
        a
    }
}

/// Compares two queries.
fn query_eq(a: &Query, b: &Query) -> (r: bool)
    ensures
        r == (a@ == b@),
{
    match (a, b) {
        (Query::Path(x), Query::Path(y)) => str_eq(x.as_str(), y.as_str()),
        (Query::Predicate(x), Query::Predicate(y)) => str_eq(x.as_str(), y.as_str()),
        (Query::Type(x), Query::Type(y)) => str_eq(x.as_str(), y.as_str()),
        _ => false,
    }
}

/// Copies a query.
fn clone_query(q: &Query) -> (r: Query)
    ensures
        r@ == q@,
{
    match q {
        Query::Path(t) => Query::Path(t.clone()),
        Query::Predicate(t) => Query::Predicate(t.clone()),
        Query::Type(t) => Query::Type(t.clone()),
    }
}

/// Copies an answer.
fn clone_answer(a: &Answer) -> (r: Answer)
    ensures
        r@ == a@,
{
    match a {
        Answer::Path { leading_colon, segments } => {
            let mut out: Vec<String> = Vec::new();
            let mut k: usize = 0;
            while k < segments.len()
                invariant
                    k <= segments@.len(),
                    out@.len() == k,
                    forall|j: int| 0 <= j < k ==> (#[trigger] out@[j])@ == segments@[j]@,
                decreases segments.len() - k,
            {
                out.push(segments[k].clone());
                k = k + 1;
            }
            assert(out@.map_values(|s: String| s@) =~= segments@.map_values(|s: String| s@));
            Answer::Path { leading_colon: *leading_colon, segments: out }
        },
        Answer::Predicate { bounds_type } => Answer::Predicate { bounds_type: *bounds_type },
        Answer::Type => Answer::Type,
        Answer::Refused { message } => Answer::Refused { message: message.clone() },
    }
}

/// Asks `syn` about `q`.
fn ask(q: &Query) -> (a: Answer)
    ensures
        answer_fits(q@, a@),
{
    match q {
        Query::Path(t) => match syn_path(t.as_str()) {
            Ok((leading_colon, segments)) => {
                let ghost texts = segments@.map_values(|s: String| s@);
                assert forall|k: int| 0 <= k < texts.len() implies (#[trigger] texts[k]).len() > 0 by {
                    assert(texts[k] == segments@[k]@);
                }
                proof {
                    if is_plain_ident(t@) {
                        assert(texts =~= seq![t@]);
                    }
                }
                Answer::Path { leading_colon, segments }
            },
            Err(message) => Answer::Refused { message },
        },
        Query::Predicate(t) => match syn_where_predicate(t.as_str()) {
            Some(bounds_type) => Answer::Predicate { bounds_type },
            None => Answer::Refused { message: String::new() },
        },
        Query::Type(t) => match syn_type(t.as_str()) {
            Ok(()) => Answer::Type,
            Err(message) => Answer::Refused { message },
        },
    }
}

/// Reads `text` as a path with `syn::parse_str::<syn::Path>`: whether it
/// starts with `::` and each segment printed as tokens, or the message of
/// `syn`'s error. A path that `syn` reads has at least one segment, each
/// starting with an identifier, so no printed segment is empty; a plain
/// identifier is read as a path of that one segment, printed as written.
/// Which other texts it reads, how a segment with generic arguments is
/// printed and how the message is worded are not stated, as they depend on
/// the token implementation in use.
#[verifier::external_body]
fn syn_path(text: &str) -> (r: Result<(bool, Vec<String>), String>)
    ensures
        r matches Ok((_, segs)) ==> segs@.len() > 0 && forall|k: int|
            0 <= k < segs@.len() ==> (#[trigger] segs@[k])@.len() > 0,
        is_plain_ident(text@) ==> r is Ok && !r->Ok_0.0 && r->Ok_0.1@.len() == 1
            && r->Ok_0.1@[0]@ == text@,
{
    match syn::parse_str::<syn::Path>(text) {
        Ok(path) => Ok((
            path.leading_colon.is_some(),
            path.segments.iter().map(|s| s.to_token_stream().to_string()).collect(),
        )),
        Err(e) => Err(e.to_string()),
    }
}

/// Reads `text` as a `where` predicate with
/// `syn::parse_str::<syn::WherePredicate>`: whether it bounds a type, or
/// `None` if `syn` refuses it. Both kinds of predicate need a `:`, so a
/// text without one is refused; a plain identifier, a ` : ` and a plain
/// identifier make a predicate that bounds a type. Which other texts it
/// reads is not stated.
#[verifier::external_body]
fn syn_where_predicate(text: &str) -> (r: Option<bool>)
    ensures
        has_no_colon(text@) ==> r is None,
        is_simple_bound(text@) ==> r == Some(true),
{
    match syn::parse_str::<syn::WherePredicate>(text) {
        Ok(syn::WherePredicate::Type(_)) => Some(true),
        Ok(_) => Some(false),
        Err(_) => None,
    }
}

/// Reads `text` as a type with `syn::parse_str::<syn::Type>`, giving the
/// message of `syn`'s error if it refuses it. A plain identifier is read
/// as a type. Which other texts it reads and how the message is worded are
/// not stated.
#[verifier::external_body]
fn syn_type(text: &str) -> (r: Result<(), String>)
    ensures
        is_plain_ident(text@) ==> r is Ok,
{
    match syn::parse_str::<syn::Type>(text) {
        Ok(_) => Ok(()),
        Err(e) => Err(e.to_string()),
    }
}

} // verus!
