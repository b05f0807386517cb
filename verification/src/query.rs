//! Search expressions.
//!
//! An expression is kept as the text that stands for it in a request: a
//! field predicate is encoded when it is made, and a combinator joins the
//! texts of its operands. Only a date range keeps its two ends and is
//! written out when the expression is.

use crate::category::Category;
use crate::encoding::{
    encode, lemma_decoded_framed, percent_decoded, percent_encoded,
};
use crate::error::ContractError;
use crate::text::{chars_of, joined};
use vstd::prelude::*;
use vstd::string::StringExecFns;
use vstd::utf8::{decode_utf8, encode_utf8};

verus! {

/// The fields that a predicate can search.
#[derive(Debug, Clone, Copy, PartialEq, Eq, Structural)]
pub enum SearchField {
    Title,
    Author,
    Abstract,
    Comment,
    JournalRef,
    SubjectCategory,
    ReportNumber,
    Id,
    All,
}

impl SearchField {
    /// The code that stands for the field in an expression.
    pub open spec fn prefix(self) -> Seq<char> {
        match self {
            SearchField::Title => "ti"@,
            SearchField::Author => "au"@,
            SearchField::Abstract => "abs"@,
            SearchField::Comment => "co"@,
            SearchField::JournalRef => "jr"@,
            SearchField::SubjectCategory => "cat"@,
            SearchField::ReportNumber => "rn"@,
            SearchField::Id => "id"@,
            SearchField::All => "all"@,
        }
    }

    /// The code of the field.
    pub fn code(&self) -> (code: &'static str)
        ensures
            code@ == self.prefix(),
    {
        match self {
            SearchField::Title => "ti",
            SearchField::Author => "au",
            SearchField::Abstract => "abs",
            SearchField::Comment => "co",
            SearchField::JournalRef => "jr",
            SearchField::SubjectCategory => "cat",
            SearchField::ReportNumber => "rn",
            SearchField::Id => "id",
            SearchField::All => "all",
        }
    }
}

/// A field predicate as it stands in an expression: the code of the field,
/// a colon, and the percent-encoded text between double quotes.
pub open spec fn term(field: SearchField, text: Seq<char>) -> Seq<char> {
    field.prefix() + ":\""@ + percent_encoded(encode_utf8(text)) + "\""@
}

/// Writes the predicate that `field` holds `text`.
pub fn render_term(field: SearchField, text: &str) -> (rendered: String)
    ensures
        rendered@ == term(field, text@),
{
    let mut rendered = field.code().to_owned();
    rendered.append(":\"");
    let encoded = encode(text);
    rendered.append(encoded.as_str());
    rendered.append("\"");
    rendered
}

/// A search expression.
///
/// Every variant but `SubmittedDate` holds the text of the expression, as
/// the functions of this type make it. `SubmittedDate` holds the two ends of
/// a range of submission dates, each as twelve digits, year to minute.
#[derive(Clone, Debug)]
pub enum QueryParams {
    Title(String),
    Author(String),
    Abstract(String),
    Comment(String),
    JournalRef(String),
    SubjectCategory(String),
    ReportNumber(String),
    Id(String),
    All(String),
    And(String),
    Or(String),
    AndNot(String),
    Group(String),
    SubmittedDate(String, String),
}

/// The ways of putting expressions together.
#[derive(Debug, Clone, Copy, PartialEq, Eq, Structural)]
pub enum Combinator {
    And,
    Or,
    AndNot,
    Group,
}

/// Whether `text` is a moment as a date range wants it: twelve digits, for
/// year, month, day, hour and minute.
pub open spec fn is_timestamp(text: Seq<char>) -> bool {
    text.len() == 12 && forall|i: int| 0 <= i < 12 ==> '0' <= #[trigger] text[i] <= '9'
}

/// Tells whether `text` is twelve digits.
pub fn timestamp(text: &str) -> (valid: bool)
    ensures
        valid == is_timestamp(text@),
{
    let chars = chars_of(text);
    if chars.len() != 12 {
        return false;
    }
    let mut i: usize = 0;
    while i < 12
        invariant
            i <= 12,
            chars@ == text@,
            chars@.len() == 12,
            forall|j: int| 0 <= j < i ==> '0' <= #[trigger] text@[j] <= '9',
        decreases 12 - i,
    {
        if !('0' <= chars[i] && chars[i] <= '9') {
            assert(!('0' <= text@[i as int] <= '9'));
            return false;
        }
        i += 1;
    }
    true
}

/// The texts of a list of expressions.
pub open spec fn rendered_all(args: Seq<QueryParams>) -> Seq<Seq<char>> {
    args.map_values(|arg: QueryParams| arg.rendered())
}

/// Whether each expression of a list can be written out.
pub open spec fn all_valid(args: Seq<QueryParams>) -> bool {
    forall|i: int| 0 <= i < args.len() ==> (#[trigger] args[i]).valid()
}

/// Whether no expression of a list is a date range.
pub open spec fn no_range(args: Seq<QueryParams>) -> bool {
    forall|i: int| 0 <= i < args.len() ==> !(#[trigger] args[i]).is_range()
}

impl QueryParams {
    /// Whether the expression is a date range.
    pub open spec fn is_range(self) -> bool {
        self is SubmittedDate
    }

    /// Whether the expression can be written out: the two ends of a date
    /// range are twelve digits each. Every other expression holds the text
    /// it was made with.
    pub open spec fn valid(self) -> bool {
        self matches QueryParams::SubmittedDate(from, to) ==> is_timestamp(from@) && is_timestamp(
            to@,
        )
    }

    /// Tells whether the expression is a date range.
    pub fn range(&self) -> (found: bool)
        ensures
            found == self.is_range(),
    {
        match self {
            QueryParams::SubmittedDate(_, _) => true,
            _ => false,
        }
    }

    /// Tells whether the expression can be written out, and if not, why.
    pub fn check(&self) -> (checked: Result<(), ContractError>)
        ensures
            self.valid() ==> checked is Ok,
            !self.valid() ==> (checked matches Err(e) && e == ContractError::Timestamp),
    {
        match self {
            QueryParams::SubmittedDate(from, to) => {
                if timestamp(from.as_str()) && timestamp(to.as_str()) {
                    Ok(())
                } else {
                    Err(ContractError::Timestamp)
                }
            },
            _ => Ok(()),
        }
    }

    /// The text of the expression in a request.
    pub open spec fn rendered(self) -> Seq<char> {
        match self {
            QueryParams::Title(text) => text@,
            QueryParams::Author(text) => text@,
            QueryParams::Abstract(text) => text@,
            QueryParams::Comment(text) => text@,
            QueryParams::JournalRef(text) => text@,
            QueryParams::SubjectCategory(text) => text@,
            QueryParams::ReportNumber(text) => text@,
            QueryParams::Id(text) => text@,
            QueryParams::All(text) => text@,
            QueryParams::And(text) => text@,
            QueryParams::Or(text) => text@,
            QueryParams::AndNot(text) => text@,
            QueryParams::Group(text) => text@,
            QueryParams::SubmittedDate(from, to) => "submittedDate:["@ + from@ + "+TO+"@ + to@
                + "]"@,
        }
    }

    /// The title holds `arg`.
    pub fn title(arg: &str) -> (query: Self)
        ensures
            query matches QueryParams::Title(text) && text@ == term(SearchField::Title, arg@),
    {
        QueryParams::Title(render_term(SearchField::Title, arg))
    }

    /// An author is `arg`.
    pub fn author(arg: &str) -> (query: Self)
        ensures
            query matches QueryParams::Author(text) && text@ == term(SearchField::Author, arg@),
    {
        QueryParams::Author(render_term(SearchField::Author, arg))
    }

    /// The abstract holds `arg`.
    pub fn abstract_text(arg: &str) -> (query: Self)
        ensures
            query matches QueryParams::Abstract(text) && text@ == term(
                SearchField::Abstract,
                arg@,
            ),
    {
        QueryParams::Abstract(render_term(SearchField::Abstract, arg))
    }

    /// The comment holds `arg`.
    pub fn comment(arg: &str) -> (query: Self)
        ensures
            query matches QueryParams::Comment(text) && text@ == term(SearchField::Comment, arg@),
    {
        QueryParams::Comment(render_term(SearchField::Comment, arg))
    }

    /// The journal reference holds `arg`.
    pub fn journal_ref(arg: &str) -> (query: Self)
        ensures
            query matches QueryParams::JournalRef(text) && text@ == term(
                SearchField::JournalRef,
                arg@,
            ),
    {
        QueryParams::JournalRef(render_term(SearchField::JournalRef, arg))
    }

    /// The paper is filed under `arg`.
    pub fn subject_category(arg: Category) -> (query: Self)
        ensures
            query matches QueryParams::SubjectCategory(text) && text@ == term(
                SearchField::SubjectCategory,
                arg.code(),
            ),
    {
        let code = arg.to_string();
        QueryParams::SubjectCategory(render_term(SearchField::SubjectCategory, code.as_str()))
    }

    /// The report number is `arg`.
    pub fn report_number(arg: &str) -> (query: Self)
        ensures
            query matches QueryParams::ReportNumber(text) && text@ == term(
                SearchField::ReportNumber,
                arg@,
            ),
    {
        QueryParams::ReportNumber(render_term(SearchField::ReportNumber, arg))
    }

    /// The identifier is `id`.
    pub fn id(id: &str) -> (query: Self)
        ensures
            query matches QueryParams::Id(text) && text@ == term(SearchField::Id, id@),
    {
        QueryParams::Id(render_term(SearchField::Id, id))
    }

    /// Any field holds `arg`.
    pub fn all(arg: &str) -> (query: Self)
        ensures
            query matches QueryParams::All(text) && text@ == term(SearchField::All, arg@),
    {
        QueryParams::All(render_term(SearchField::All, arg))
    }

    /// Writes the expression as it stands in a request.
    pub fn to_string(&self) -> (text: String)
        requires
            self.valid(),
        ensures
            text@ == self.rendered(),
    {
        match self {
            QueryParams::Title(arg) => arg.clone(),
            QueryParams::Author(arg) => arg.clone(),
            QueryParams::Abstract(arg) => arg.clone(),
            QueryParams::Comment(arg) => arg.clone(),
            QueryParams::JournalRef(arg) => arg.clone(),
            QueryParams::SubjectCategory(arg) => arg.clone(),
            QueryParams::ReportNumber(arg) => arg.clone(),
            QueryParams::Id(arg) => arg.clone(),
            QueryParams::All(arg) => arg.clone(),
            QueryParams::And(arg) => arg.clone(),
            QueryParams::Or(arg) => arg.clone(),
            QueryParams::AndNot(arg) => arg.clone(),
            QueryParams::Group(arg) => arg.clone(),
            QueryParams::SubmittedDate(from, to) => {
                let mut text = "submittedDate:[".to_owned();
                text.append(from.as_str());
                text.append("+TO+");
                text.append(to.as_str());
                text.append("]");
                text
            },
        }
    }

    /// The expressions of `args`, all of which must hold. A date range may
    /// be one of them.
    pub fn and(args: Vec<QueryParams>) -> (query: Self)
        requires
            args@.len() >= 1,
            all_valid(args@),
        ensures
            query matches QueryParams::And(text) && text@ == joined(
                rendered_all(args@),
                "+AND+"@,
            ),
    {
        QueryParams::And(join(&args, "+AND+"))
    }

    /// The expressions of `args`, one of which must hold. None of them is a
    /// date range.
    pub fn or(args: Vec<QueryParams>) -> (query: Self)
        requires
            args@.len() >= 1,
            all_valid(args@),
            no_range(args@),
        ensures
            query matches QueryParams::Or(text) && text@ == joined(rendered_all(args@), "+OR+"@),
    {
        QueryParams::Or(join(&args, "+OR+"))
    }

    /// The first expression of `args`, without what the others hold of. None
    /// of them is a date range.
    pub fn and_not(args: Vec<QueryParams>) -> (query: Self)
        requires
            args@.len() >= 1,
            all_valid(args@),
            no_range(args@),
        ensures
            query matches QueryParams::AndNot(text) && text@ == joined(
                rendered_all(args@),
                "+ANDNOT+"@,
            ),
    {
        QueryParams::AndNot(join(&args, "+ANDNOT+"))
    }

    /// The expressions of `args` in a row, between encoded parentheses. None
    /// of them is a date range.
    pub fn group(args: Vec<QueryParams>) -> (query: Self)
        requires
            args@.len() >= 1,
            all_valid(args@),
            no_range(args@),
        ensures
            query matches QueryParams::Group(text) && text@ == "%28"@ + joined(
                rendered_all(args@),
                Seq::empty(),
            ) + "%29"@,
    {
        let mut text = "%28".to_owned();
        let inner = join(&args, "");
        text.append(inner.as_str());
        text.append("%29");
        proof {
            reveal_strlit("");
            assert(""@ == Seq::<char>::empty());
        }
        QueryParams::Group(text)
    }
}

impl QueryParams {
    /// What `combine` answers for these operands: nothing where it makes
    /// the expression, else the first of these that holds: there is no
    /// operand, a date range among them has an end that is not twelve
    /// digits, a date range is an operand of another combinator than `and`.
    pub open spec fn refusal(operator: Combinator, args: Seq<QueryParams>) -> Option<
        ContractError,
    > {
        if args.len() == 0 {
            Some(ContractError::NoOperand)
        } else if !all_valid(args) {
            Some(ContractError::Timestamp)
        } else if operator != Combinator::And && !no_range(args) {
            Some(ContractError::Range)
        } else {
            None
        }
    }

    /// `args` put together by `operator`, as `and`, `or`, `and_not` and
    /// `group` do it, or the reason why they cannot be.
    pub fn combine(operator: Combinator, args: Vec<QueryParams>) -> (query: Result<
        QueryParams,
        ContractError,
    >)
        ensures
            match QueryParams::refusal(operator, args@) {
                Some(error) => query matches Err(e) && e == error,
                None => query matches Ok(made) && match operator {
                    Combinator::And => made matches QueryParams::And(text) && text@ == joined(
                        rendered_all(args@),
                        "+AND+"@,
                    ),
                    Combinator::Or => made matches QueryParams::Or(text) && text@ == joined(
                        rendered_all(args@),
                        "+OR+"@,
                    ),
                    Combinator::AndNot => made matches QueryParams::AndNot(text) && text@
                        == joined(rendered_all(args@), "+ANDNOT+"@),
                    Combinator::Group => made matches QueryParams::Group(text) && text@ == "%28"@
                        + joined(rendered_all(args@), Seq::empty()) + "%29"@,
                },
            },
    {
        if args.len() == 0 {
            return Err(ContractError::NoOperand);
        }
        if !check_all(&args) {
            return Err(ContractError::Timestamp);
        }
        match operator {
            Combinator::And => Ok(QueryParams::and(args)),
            Combinator::Or => {
                if any_range(&args) {
                    Err(ContractError::Range)
                } else {
                    Ok(QueryParams::or(args))
                }
            },
            Combinator::AndNot => {
                if any_range(&args) {
                    Err(ContractError::Range)
                } else {
                    Ok(QueryParams::and_not(args))
                }
            },
            Combinator::Group => {
                if any_range(&args) {
                    Err(ContractError::Range)
                } else {
                    Ok(QueryParams::group(args))
                }
            },
        }
    }

    /// The range of submission dates from `from` to `to`, both included, or
    /// the error that one of them is not twelve digits.
    pub fn submitted_date(from: &str, to: &str) -> (query: Result<QueryParams, ContractError>)
        ensures
            is_timestamp(from@) && is_timestamp(to@) ==> (query matches Ok(
                QueryParams::SubmittedDate(first, last),
            ) && first@ == from@ && last@ == to@),
            !(is_timestamp(from@) && is_timestamp(to@)) ==> (query matches Err(e) && e
                == ContractError::Timestamp),
    {
        if timestamp(from) && timestamp(to) {
            Ok(QueryParams::SubmittedDate(from.to_owned(), to.to_owned()))
        } else {
            Err(ContractError::Timestamp)
        }
    }

    /// The text of the expression that a request begins with.
    pub open spec fn default_text() -> Seq<char> {
        term(SearchField::Title, "default"@)
    }
}

impl Default for QueryParams {
    fn default() -> (query: QueryParams)
        ensures
            query matches QueryParams::Title(text) && text@ == QueryParams::default_text(),
    {
        QueryParams::title("default")
    }
}

/// Tells whether each expression of `args` can be written out.
pub fn check_all(args: &Vec<QueryParams>) -> (valid: bool)
    ensures
        valid == all_valid(args@),
{
    let mut i: usize = 0;
    while i < args.len()
        invariant
            i <= args.len(),
            forall|j: int| 0 <= j < i ==> (#[trigger] args@[j]).valid(),
        decreases args.len() - i,
    {
        if args[i].check().is_err() {
            assert(!args@[i as int].valid());
            return false;
        }
        i += 1;
    }
    true
}

/// Tells whether an expression of `args` is a date range.
pub fn any_range(args: &Vec<QueryParams>) -> (found: bool)
    ensures
        found == !no_range(args@),
{
    let mut i: usize = 0;
    while i < args.len()
        invariant
            i <= args.len(),
            forall|j: int| 0 <= j < i ==> !(#[trigger] args@[j]).is_range(),
        decreases args.len() - i,
    {
        if args[i].range() {
            assert(args@[i as int].is_range());
            return true;
        }
        i += 1;
    }
    false
}

/// Writes the texts of `args` in a row, with `separator` between each two.
pub fn join(args: &Vec<QueryParams>, separator: &str) -> (text: String)
    requires
        all_valid(args@),
    ensures
        text@ == joined(rendered_all(args@), separator@),
{
    let ghost parts = rendered_all(args@);
    let mut text = String::new();
    let mut i: usize = 0;
    while i < args.len()
        invariant
            i <= args.len(),
            all_valid(args@),
            parts == rendered_all(args@),
            text@ == joined(parts.take(i as int), separator@),
        decreases args.len() - i,
    {
        let ghost before = text@;
        if i > 0 {
            text.append(separator);
        }
        let part = args[i].to_string();
        text.append(part.as_str());
        proof {
            assert(parts.take(i + 1).drop_last() == parts.take(i as int));
            assert(parts.take(i + 1).last() == part@);
            if i == 0 {
                assert(before + part@ == part@);
            }
        }
        i += 1;
    }
    assert(parts.take(i as int) == parts);
    text
}

/// Percent-decoding the text of a field predicate gives the code of the
/// field, a colon, and between double quotes the text that was searched
/// for, whatever that text holds.
pub proof fn lemma_term_round_trip(field: SearchField, text: Seq<char>)
    ensures
        percent_decoded(term(field, text)) == encode_utf8(
            field.prefix() + ":\""@ + text + "\""@,
        ),
        decode_utf8(percent_decoded(term(field, text))) == field.prefix() + ":\""@ + text + "\""@,
{
    reveal_strlit("ti");
    reveal_strlit("au");
    reveal_strlit("abs");
    reveal_strlit("co");
    reveal_strlit("jr");
    reveal_strlit("cat");
    reveal_strlit("rn");
    reveal_strlit("id");
    reveal_strlit("all");
    reveal_strlit(":\"");
    reveal_strlit("\"");
    let before = field.prefix() + ":\""@;
    assert(!before.contains('%'));
    assert(!"\""@.contains('%'));
    lemma_decoded_framed(before, text, "\""@);
}

} // verus!
