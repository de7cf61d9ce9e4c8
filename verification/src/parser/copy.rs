//! The grammar of the two `COPY` statements.
//!
//! ```text
//! COPY [hint] INTO location FROM { table | ( query ) } location_option*
//! COPY [hint] INTO table [ ( column, ... ) ] FROM { location | ( query ) } table_option*
//! ```
//!
//! A parser either takes some tokens and gives a value, or gives up where
//! it stands, so that another reading of the tokens may be tried, or fails
//! for good: once `FROM` is due, a statement that does not go on as it must
//! is in error whatever else might be tried.

use vstd::prelude::*;
use crate::ast::copy::{
    opt_list, CopyIntoLocationOption, CopyIntoLocationSource, CopyIntoLocationStmt,
    CopyIntoTableOption, CopyIntoTableSource, CopyIntoTableStmt, FileLocation, FormatOption,
    LocationOptionView, LocationSourceView, LocationStmtView, Statement, StatementView,
    TableIdentifier, TableOptionView, TableSourceView, TableStmtView,
};
use crate::parser::token::{Token, TokenKind};

verus! {

/// The most files that one copy may be limited to.
pub const MAX_COPIED_FILES_NUM: usize = 2000;

/// What a parser makes of the tokens from some place on.
pub enum Parsed<T> {
    /// A value, and the place of the first token not taken.
    Done(T, usize),
    /// These tokens are not what the parser reads. Another parser may be
    /// tried at the same place.
    Error(usize),
    /// These tokens began as what the parser reads and did not go on so. No
    /// other parser is tried.
    Failure(usize),
}

/// Whether the token at a place is the word or sign named.
pub open spec fn word_at(tokens: Seq<Token>, pos: int, kind: TokenKind) -> bool {
    0 <= pos < tokens.len() && tokens[pos] == Token::Word(kind)
}

fn is_word_at(tokens: &Vec<Token>, pos: usize, kind: TokenKind) -> (yes: bool)
    ensures
        yes == word_at(tokens@, pos as int, kind),
{
    if pos >= tokens.len() {
        return false;
    }
    match &tokens[pos] {
        Token::Word(k) => *k == kind,
        _ => false,
    }
}

/// The text between quotes at a place.
pub open spec fn string_at(tokens: Seq<Token>, pos: int) -> Option<String> {
    if 0 <= pos < tokens.len() {
        match tokens[pos] {
            Token::LiteralString(s) => Some(s),
            _ => None,
        }
    } else {
        None
    }
}

fn literal_string(tokens: &Vec<Token>, pos: usize) -> (res: Option<String>)
    ensures
        res == string_at(tokens@, pos as int),
{
    if pos >= tokens.len() {
        return None;
    }
    match &tokens[pos] {
        Token::LiteralString(s) => Some(s.clone()),
        _ => None,
    }
}

/// The name at a place.
pub open spec fn ident_at(tokens: Seq<Token>, pos: int) -> Option<String> {
    if 0 <= pos < tokens.len() {
        match tokens[pos] {
            Token::Ident(s) => Some(s),
            _ => None,
        }
    } else {
        None
    }
}

fn ident(tokens: &Vec<Token>, pos: usize) -> (res: Option<String>)
    ensures
        res == ident_at(tokens@, pos as int),
{
    if pos >= tokens.len() {
        return None;
    }
    match &tokens[pos] {
        Token::Ident(s) => Some(s.clone()),
        _ => None,
    }
}

/// The number at a place.
pub open spec fn integer_at(tokens: Seq<Token>, pos: int) -> Option<u64> {
    if 0 <= pos < tokens.len() {
        match tokens[pos] {
            Token::LiteralInteger(n) => Some(n),
            _ => None,
        }
    } else {
        None
    }
}

fn literal_u64(tokens: &Vec<Token>, pos: usize) -> (res: Option<u64>)
    ensures
        res == integer_at(tokens@, pos as int),
{
    if pos >= tokens.len() {
        return None;
    }
    match &tokens[pos] {
        Token::LiteralInteger(n) => Some(*n),
        _ => None,
    }
}

/// The truth value at a place.
pub open spec fn bool_at(tokens: Seq<Token>, pos: int) -> Option<bool> {
    if word_at(tokens, pos, TokenKind::TRUE) {
        Some(true)
    } else if word_at(tokens, pos, TokenKind::FALSE) {
        Some(false)
    } else {
        None
    }
}

fn literal_bool(tokens: &Vec<Token>, pos: usize) -> (res: Option<bool>)
    ensures
        res == bool_at(tokens@, pos as int),
{
    if is_word_at(tokens, pos, TokenKind::TRUE) {
        Some(true)
    } else if is_word_at(tokens, pos, TokenKind::FALSE) {
        Some(false)
    } else {
        None
    }
}

/// A number as a size on this machine.
pub open spec fn as_size(n: u64) -> usize {
    n as usize
}

fn to_size(n: u64) -> (size: usize)
    ensures
        size == as_size(n),
{
    #[verifier::truncate]
    (n as usize)
}

/// What the grammar makes of the tokens from some place on.
pub enum Reading<V> {
    Done(V, int),
    Error(int),
    Failure(int),
}

/// The parser gave what the grammar says, by what the value holds.
pub open spec fn same_view<T: View>(res: Parsed<T>, reading: Reading<T::V>) -> bool {
    match (res, reading) {
        (Parsed::Done(v, next), Reading::Done(w, end)) => v@ == w && next == end,
        (Parsed::Error(at), Reading::Error(place)) => at == place,
        (Parsed::Failure(at), Reading::Failure(place)) => at == place,
        _ => false,
    }
}

/// The item of a list at a place: a name in a list of names, a text between
/// quotes in a list of texts.
pub open spec fn item_at(tokens: Seq<Token>, pos: int, names: bool) -> Option<String> {
    if names {
        ident_at(tokens, pos)
    } else {
        string_at(tokens, pos)
    }
}

/// The items that follow an item: each behind a comma. A comma that no item
/// follows is not part of the list.
pub open spec fn more_items(tokens: Seq<Token>, pos: int, names: bool) -> (Seq<String>, int)
    decreases tokens.len() - pos,
{
    if word_at(tokens, pos, TokenKind::Comma) && item_at(tokens, pos + 1, names) is Some {
        let rest = more_items(tokens, pos + 2, names);
        (seq![item_at(tokens, pos + 1, names)->0] + rest.0, rest.1)
    } else {
        (Seq::empty(), pos)
    }
}

/// A list of items between commas, perhaps empty, and where it ends.
pub open spec fn items_from(tokens: Seq<Token>, pos: int, names: bool) -> (Seq<String>, int) {
    match item_at(tokens, pos, names) {
        Some(first) => {
            let rest = more_items(tokens, pos + 1, names);
            (seq![first] + rest.0, rest.1)
        },
        None => (Seq::empty(), pos),
    }
}

fn item(tokens: &Vec<Token>, pos: usize, names: bool) -> (res: Option<String>)
    ensures
        res == item_at(tokens@, pos as int, names),
{
    if names {
        ident(tokens, pos)
    } else {
        literal_string(tokens, pos)
    }
}

/// Reads a list of items between commas.
fn comma_separated_list(tokens: &Vec<Token>, pos: usize, names: bool) -> (res: (Vec<String>, usize))
    requires
        pos <= tokens.len(),
    ensures
        res.0@ == items_from(tokens@, pos as int, names).0,
        res.1 == items_from(tokens@, pos as int, names).1,
        pos <= res.1 <= tokens.len(),
{
    let mut list: Vec<String> = Vec::new();
    match item(tokens, pos, names) {
        None => {
            return (list, pos);
        },
        Some(first) => {
            list.push(first);
        },
    }
    let ghost whole = items_from(tokens@, pos as int, names);
    let mut p: usize = pos + 1;
    proof {
        assert(list@ =~= seq![item_at(tokens@, pos as int, names)->0]);
    }
    loop
        invariant_except_break
            pos < p <= tokens.len(),
            list@ + more_items(tokens@, p as int, names).0 == whole.0,
            more_items(tokens@, p as int, names).1 == whole.1,
        ensures
            list@ == whole.0,
            p == whole.1,
            pos < p <= tokens.len(),
        decreases tokens.len() - p,
    {
        if !is_word_at(tokens, p, TokenKind::Comma) {
            proof {
                assert(list@ + Seq::<String>::empty() =~= list@);
            }
            break ;
        }
        match item(tokens, p + 1, names) {
            None => {
                proof {
                    assert(list@ + Seq::<String>::empty() =~= list@);
                }
                break ;
            },
            Some(next) => {
                let ghost before = list@;
                list.push(next);
                proof {
                    let rest = more_items(tokens@, p + 2, names);
                    assert(list@ + rest.0 =~= before + (seq![next] + rest.0));
                }
                p = p + 2;
            },
        }
    }
    (list, p)
}

/// One option of a file format at a place: a name, an equals sign, and a
/// value, written as a name or between quotes.
pub open spec fn format_option_at(tokens: Seq<Token>, pos: int) -> Option<FormatOption> {
    match ident_at(tokens, pos) {
        Some(name) => if word_at(tokens, pos + 1, TokenKind::Eq) {
            match string_at(tokens, pos + 2) {
                Some(value) => Some(FormatOption { name, value }),
                None => match ident_at(tokens, pos + 2) {
                    Some(value) => Some(FormatOption { name, value }),
                    None => None,
                },
            }
        } else {
            None
        },
        None => None,
    }
}

/// The options of a file format from a place on, with or without commas
/// between them, and where they end.
pub open spec fn format_options_from(tokens: Seq<Token>, pos: int, first: bool) -> (
    Seq<FormatOption>,
    int,
)
    decreases tokens.len() - pos,
{
    let start = if !first && word_at(tokens, pos, TokenKind::Comma) && format_option_at(
        tokens,
        pos + 1,
    ) is Some {
        pos + 1
    } else {
        pos
    };
    match format_option_at(tokens, start) {
        Some(option) => {
            let rest = format_options_from(tokens, start + 3, false);
            (seq![option] + rest.0, rest.1)
        },
        None => (Seq::empty(), pos),
    }
}

fn format_option(tokens: &Vec<Token>, pos: usize) -> (res: Option<FormatOption>)
    requires
        pos <= tokens.len(),
    ensures
        res == format_option_at(tokens@, pos as int),
        res is Some ==> pos + 3 <= tokens.len(),
{
    let name: String = match ident(tokens, pos) {
        Some(name) => name,
        None => {
            return None;
        },
    };
    if !is_word_at(tokens, pos + 1, TokenKind::Eq) {
        return None;
    }
    match literal_string(tokens, pos + 2) {
        Some(value) => Some(FormatOption { name, value }),
        None => match ident(tokens, pos + 2) {
            Some(value) => Some(FormatOption { name, value }),
            None => None,
        },
    }
}

fn format_options(tokens: &Vec<Token>, pos: usize) -> (res: (Vec<FormatOption>, usize))
    requires
        pos <= tokens.len(),
    ensures
        res.0@ == format_options_from(tokens@, pos as int, true).0,
        res.1 == format_options_from(tokens@, pos as int, true).1,
        pos <= res.1 <= tokens.len(),
{
    let ghost whole = format_options_from(tokens@, pos as int, true);
    let mut list: Vec<FormatOption> = Vec::new();
    let mut p: usize = pos;
    let mut first: bool = true;
    proof {
        assert(list@ + whole.0 =~= whole.0);
    }
    loop
        invariant_except_break
            pos <= p <= tokens.len(),
            list@ + format_options_from(tokens@, p as int, first).0 == whole.0,
            format_options_from(tokens@, p as int, first).1 == whole.1,
        ensures
            list@ == whole.0,
            p == whole.1,
            pos <= p <= tokens.len(),
        decreases tokens.len() - p,
    {
        let mut start: usize = p;
        if !first && is_word_at(tokens, p, TokenKind::Comma) {
            match format_option(tokens, p + 1) {
                Some(_) => {
                    start = p + 1;
                },
                None => {},
            }
        }
        match format_option(tokens, start) {
            None => {
                proof {
                    assert(list@ + Seq::<FormatOption>::empty() =~= list@);
                }
                break ;
            },
            Some(option) => {
                let ghost before = list@;
                list.push(option);
                proof {
                    let rest = format_options_from(tokens@, start + 3, false);
                    assert(list@ + rest.0 =~= before + (seq![option] + rest.0));
                }
                p = start + 3;
                first = false;
            },
        }
    }
    (list, p)
}

/// The clause that names a file format: `FILE_FORMAT = ( options )`.
pub open spec fn file_format_clause_at(tokens: Seq<Token>, pos: int) -> Option<
    (Seq<FormatOption>, int),
> {
    if word_at(tokens, pos, TokenKind::FILE_FORMAT) && word_at(tokens, pos + 1, TokenKind::Eq)
        && word_at(tokens, pos + 2, TokenKind::LParen) {
        let options = format_options_from(tokens, pos + 3, true);
        if word_at(tokens, options.1, TokenKind::RParen) {
            Some((options.0, options.1 + 1))
        } else {
            None
        }
    } else {
        None
    }
}

fn file_format_clause(tokens: &Vec<Token>, pos: usize) -> (res: Option<(Vec<FormatOption>, usize)>)
    requires
        pos <= tokens.len(),
    ensures
        match file_format_clause_at(tokens@, pos as int) {
            Some((options, end)) => res matches Some((list, next)) && list@ == options && next
                == end && pos < next <= tokens.len(),
            None => res is None,
        },
{
    if !(is_word_at(tokens, pos, TokenKind::FILE_FORMAT) && is_word_at(
        tokens,
        pos + 1,
        TokenKind::Eq,
    ) && is_word_at(tokens, pos + 2, TokenKind::LParen)) {
        return None;
    }
    let (list, p) = format_options(tokens, pos + 3);
    if !is_word_at(tokens, p, TokenKind::RParen) {
        return None;
    }
    Some((list, p + 1))
}

/// A value behind a word and an equals sign: where it stands, if the word
/// and the sign are there.
pub open spec fn value_place(tokens: Seq<Token>, pos: int, kind: TokenKind) -> Option<int> {
    if word_at(tokens, pos, kind) && word_at(tokens, pos + 1, TokenKind::Eq) {
        Some(pos + 2)
    } else {
        None
    }
}

/// The smaller of the limit on copied files and a number.
pub open spec fn capped_files(n: u64) -> usize {
    if as_size(n) < MAX_COPIED_FILES_NUM {
        as_size(n)
    } else {
        MAX_COPIED_FILES_NUM
    }
}

/// One option of a copy into a table at a place, and where it ends.
pub open spec fn table_option_at(tokens: Seq<Token>, pos: int) -> Option<(TableOptionView, int)> {
    if value_place(tokens, pos, TokenKind::FILES) is Some {
        if word_at(tokens, pos + 2, TokenKind::LParen) {
            let files = items_from(tokens, pos + 3, false);
            if word_at(tokens, files.1, TokenKind::RParen) {
                Some((TableOptionView::Files(files.0), files.1 + 1))
            } else {
                None
            }
        } else {
            None
        }
    } else if value_place(tokens, pos, TokenKind::PATTERN) is Some {
        match string_at(tokens, pos + 2) {
            Some(v) => Some((TableOptionView::Pattern(v), pos + 3)),
            None => None,
        }
    } else if word_at(tokens, pos, TokenKind::FILE_FORMAT) {
        match file_format_clause_at(tokens, pos) {
            Some((options, end)) => Some((TableOptionView::FileFormat(options), end)),
            None => None,
        }
    } else if value_place(tokens, pos, TokenKind::VALIDATION_MODE) is Some {
        match string_at(tokens, pos + 2) {
            Some(v) => Some((TableOptionView::ValidationMode(v), pos + 3)),
            None => None,
        }
    } else if value_place(tokens, pos, TokenKind::SIZE_LIMIT) is Some {
        match integer_at(tokens, pos + 2) {
            Some(n) => Some((TableOptionView::SizeLimit(as_size(n)), pos + 3)),
            None => None,
        }
    } else if value_place(tokens, pos, TokenKind::MAX_FILES) is Some {
        match integer_at(tokens, pos + 2) {
            Some(n) => Some((TableOptionView::MaxFiles(capped_files(n)), pos + 3)),
            None => None,
        }
    } else if value_place(tokens, pos, TokenKind::SPLIT_SIZE) is Some {
        match integer_at(tokens, pos + 2) {
            Some(n) => Some((TableOptionView::SplitSize(as_size(n)), pos + 3)),
            None => None,
        }
    } else if value_place(tokens, pos, TokenKind::PURGE) is Some {
        match bool_at(tokens, pos + 2) {
            Some(b) => Some((TableOptionView::Purge(b), pos + 3)),
            None => None,
        }
    } else if value_place(tokens, pos, TokenKind::FORCE) is Some {
        match bool_at(tokens, pos + 2) {
            Some(b) => Some((TableOptionView::Force(b), pos + 3)),
            None => None,
        }
    } else if value_place(tokens, pos, TokenKind::ON_ERROR) is Some {
        match ident_at(tokens, pos + 2) {
            Some(v) => Some((TableOptionView::OnError(v), pos + 3)),
            None => None,
        }
    } else if value_place(tokens, pos, TokenKind::DISABLE_VARIANT_CHECK) is Some {
        match bool_at(tokens, pos + 2) {
            Some(b) => Some((TableOptionView::DisableVariantCheck(b), pos + 3)),
            None => None,
        }
    } else if value_place(tokens, pos, TokenKind::RETURN_FAILED_ONLY) is Some {
        match bool_at(tokens, pos + 2) {
            Some(b) => Some((TableOptionView::ReturnFailedOnly(b), pos + 3)),
            None => None,
        }
    } else {
        None
    }
}

fn has_value(tokens: &Vec<Token>, pos: usize, kind: TokenKind) -> (yes: bool)
    requires
        pos <= tokens.len(),
    ensures
        yes == (value_place(tokens@, pos as int, kind) is Some),
        yes ==> pos + 2 <= tokens.len(),
{
    is_word_at(tokens, pos, kind) && is_word_at(tokens, pos + 1, TokenKind::Eq)
}

/// Reads one option of a copy into a table.
pub fn copy_into_table_option(tokens: &Vec<Token>, pos: usize) -> (res: Parsed<CopyIntoTableOption>)
    requires
        pos <= tokens.len(),
    ensures
        match table_option_at(tokens@, pos as int) {
            Some((option, end)) => res matches Parsed::Done(opt, next) && opt@ == option && next
                == end && pos < next <= tokens.len(),
            None => res == Parsed::<CopyIntoTableOption>::Error(pos),
        },
{
    if has_value(tokens, pos, TokenKind::FILES) {
        if !is_word_at(tokens, pos + 2, TokenKind::LParen) {
            return Parsed::Error(pos);
        }
        let (files, p) = comma_separated_list(tokens, pos + 3, false);
        if !is_word_at(tokens, p, TokenKind::RParen) {
            return Parsed::Error(pos);
        }
        return Parsed::Done(CopyIntoTableOption::Files(files), p + 1);
    }
    if has_value(tokens, pos, TokenKind::PATTERN) {
        return match literal_string(tokens, pos + 2) {
            Some(v) => Parsed::Done(CopyIntoTableOption::Pattern(v), pos + 3),
            None => Parsed::Error(pos),
        };
    }
    if is_word_at(tokens, pos, TokenKind::FILE_FORMAT) {
        return match file_format_clause(tokens, pos) {
            Some((options, next)) => Parsed::Done(CopyIntoTableOption::FileFormat(options), next),
            None => Parsed::Error(pos),
        };
    }
    if has_value(tokens, pos, TokenKind::VALIDATION_MODE) {
        return match literal_string(tokens, pos + 2) {
            Some(v) => Parsed::Done(CopyIntoTableOption::ValidationMode(v), pos + 3),
            None => Parsed::Error(pos),
        };
    }
    if has_value(tokens, pos, TokenKind::SIZE_LIMIT) {
        return match literal_u64(tokens, pos + 2) {
            Some(n) => Parsed::Done(CopyIntoTableOption::SizeLimit(to_size(n)), pos + 3),
            None => Parsed::Error(pos),
        };
    }
    if has_value(tokens, pos, TokenKind::MAX_FILES) {
        return match literal_u64(tokens, pos + 2) {
            Some(n) => {
                let asked: usize = to_size(n);
                let capped: usize = if asked < MAX_COPIED_FILES_NUM {
                    asked
                } else {
                    MAX_COPIED_FILES_NUM
                };
                Parsed::Done(CopyIntoTableOption::MaxFiles(capped), pos + 3)
            },
            None => Parsed::Error(pos),
        };
    }
    if has_value(tokens, pos, TokenKind::SPLIT_SIZE) {
        return match literal_u64(tokens, pos + 2) {
            Some(n) => Parsed::Done(CopyIntoTableOption::SplitSize(to_size(n)), pos + 3),
            None => Parsed::Error(pos),
        };
    }
    if has_value(tokens, pos, TokenKind::PURGE) {
        return match literal_bool(tokens, pos + 2) {
            Some(b) => Parsed::Done(CopyIntoTableOption::Purge(b), pos + 3),
            None => Parsed::Error(pos),
        };
    }
    if has_value(tokens, pos, TokenKind::FORCE) {
        return match literal_bool(tokens, pos + 2) {
            Some(b) => Parsed::Done(CopyIntoTableOption::Force(b), pos + 3),
            None => Parsed::Error(pos),
        };
    }
    if has_value(tokens, pos, TokenKind::ON_ERROR) {
        return match ident(tokens, pos + 2) {
            Some(v) => Parsed::Done(CopyIntoTableOption::OnError(v), pos + 3),
            None => Parsed::Error(pos),
        };
    }
    if has_value(tokens, pos, TokenKind::DISABLE_VARIANT_CHECK) {
        return match literal_bool(tokens, pos + 2) {
            Some(b) => Parsed::Done(CopyIntoTableOption::DisableVariantCheck(b), pos + 3),
            None => Parsed::Error(pos),
        };
    }
    if has_value(tokens, pos, TokenKind::RETURN_FAILED_ONLY) {
        return match literal_bool(tokens, pos + 2) {
            Some(b) => Parsed::Done(CopyIntoTableOption::ReturnFailedOnly(b), pos + 3),
            None => Parsed::Error(pos),
        };
    }
    Parsed::Error(pos)
}

/// One option of a copy into a location at a place, and where it ends.
pub open spec fn location_option_at(tokens: Seq<Token>, pos: int) -> Option<
    (LocationOptionView, int),
> {
    if value_place(tokens, pos, TokenKind::SINGLE) is Some {
        match bool_at(tokens, pos + 2) {
            Some(b) => Some((LocationOptionView::Single(b), pos + 3)),
            None => None,
        }
    } else if value_place(tokens, pos, TokenKind::MAX_FILE_SIZE) is Some {
        match integer_at(tokens, pos + 2) {
            Some(n) => Some((LocationOptionView::MaxFileSize(as_size(n)), pos + 3)),
            None => None,
        }
    } else if word_at(tokens, pos, TokenKind::FILE_FORMAT) {
        match file_format_clause_at(tokens, pos) {
            Some((options, end)) => Some((LocationOptionView::FileFormat(options), end)),
            None => None,
        }
    } else {
        None
    }
}

/// Reads one option of a copy into a location.
pub fn copy_into_location_option(tokens: &Vec<Token>, pos: usize) -> (res: Parsed<
    CopyIntoLocationOption,
>)
    requires
        pos <= tokens.len(),
    ensures
        match location_option_at(tokens@, pos as int) {
            Some((option, end)) => res matches Parsed::Done(opt, next) && opt@ == option && next
                == end && pos < next <= tokens.len(),
            None => res == Parsed::<CopyIntoLocationOption>::Error(pos),
        },
{
    if has_value(tokens, pos, TokenKind::SINGLE) {
        return match literal_bool(tokens, pos + 2) {
            Some(b) => Parsed::Done(CopyIntoLocationOption::Single(b), pos + 3),
            None => Parsed::Error(pos),
        };
    }
    if has_value(tokens, pos, TokenKind::MAX_FILE_SIZE) {
        return match literal_u64(tokens, pos + 2) {
            Some(n) => Parsed::Done(CopyIntoLocationOption::MaxFileSize(to_size(n)), pos + 3),
            None => Parsed::Error(pos),
        };
    }
    if is_word_at(tokens, pos, TokenKind::FILE_FORMAT) {
        return match file_format_clause(tokens, pos) {
            Some((options, next)) => Parsed::Done(CopyIntoLocationOption::FileFormat(options), next),
            None => Parsed::Error(pos),
        };
    }
    Parsed::Error(pos)
}

/// The name of a table at a place: one to three names with periods
/// between them. A period that no name follows is not part of it.
pub open spec fn table_triple_at(tokens: Seq<Token>, pos: int) -> Option<(TableIdentifier, int)> {
    match ident_at(tokens, pos) {
        Some(first) => if word_at(tokens, pos + 1, TokenKind::Period) && ident_at(tokens, pos + 2)
            is Some {
            let second = ident_at(tokens, pos + 2)->0;
            if word_at(tokens, pos + 3, TokenKind::Period) && ident_at(tokens, pos + 4) is Some {
                let third = ident_at(tokens, pos + 4)->0;
                Some(
                    (
                        TableIdentifier {
                            catalog: Some(first),
                            database: Some(second),
                            table: third,
                        },
                        pos + 5,
                    ),
                )
            } else {
                Some(
                    (TableIdentifier { catalog: None, database: Some(first), table: second }, pos + 3),
                )
            }
        } else {
            Some((TableIdentifier { catalog: None, database: None, table: first }, pos + 1))
        },
        None => None,
    }
}

fn table_triple(tokens: &Vec<Token>, pos: usize) -> (res: Option<(TableIdentifier, usize)>)
    requires
        pos <= tokens.len(),
    ensures
        match table_triple_at(tokens@, pos as int) {
            Some((table, end)) => res == Some((table, end as usize)) && pos < end <= tokens.len(),
            None => res is None,
        },
{
    let first: String = match ident(tokens, pos) {
        Some(first) => first,
        None => {
            return None;
        },
    };
    let mut second: Option<String> = None;
    let mut third: Option<String> = None;
    let mut next: usize = pos + 1;
    if is_word_at(tokens, pos + 1, TokenKind::Period) {
        match ident(tokens, pos + 2) {
            Some(name) => {
                second = Some(name);
                next = pos + 3;
                if is_word_at(tokens, pos + 3, TokenKind::Period) {
                    match ident(tokens, pos + 4) {
                        Some(name) => {
                            third = Some(name);
                            next = pos + 5;
                        },
                        None => {},
                    }
                }
            },
            None => {},
        }
    }
    Some((TableIdentifier::from_tuple(first, second, third), next))
}

/// The location of files at a place: a stage or an address.
pub open spec fn file_location_at(tokens: Seq<Token>, pos: int) -> Option<FileLocation> {
    if 0 <= pos < tokens.len() {
        match tokens[pos] {
            Token::AtString(stage) => Some(FileLocation::Stage(stage)),
            Token::LiteralString(uri) => Some(FileLocation::Uri(uri)),
            _ => None,
        }
    } else {
        None
    }
}

fn file_location(tokens: &Vec<Token>, pos: usize) -> (res: Option<FileLocation>)
    ensures
        res == file_location_at(tokens@, pos as int),
{
    if pos >= tokens.len() {
        return None;
    }
    match &tokens[pos] {
        Token::AtString(stage) => Some(FileLocation::Stage(stage.clone())),
        Token::LiteralString(uri) => Some(FileLocation::Uri(uri.clone())),
        _ => None,
    }
}

/// The place of the parenthesis that closes the one opened before `pos`,
/// with `depth` more opened since.
pub open spec fn closing_paren(tokens: Seq<Token>, pos: int, depth: nat) -> Option<int>
    decreases tokens.len() - pos,
{
    if pos < 0 || pos >= tokens.len() {
        None
    } else if tokens[pos] == Token::Word(TokenKind::RParen) {
        if depth == 0 {
            Some(pos)
        } else {
            closing_paren(tokens, pos + 1, (depth - 1) as nat)
        }
    } else if tokens[pos] == Token::Word(TokenKind::LParen) {
        closing_paren(tokens, pos + 1, depth + 1)
    } else {
        closing_paren(tokens, pos + 1, depth)
    }
}

/// A statement between parentheses at a place: the tokens between the
/// opening parenthesis and the one that closes it, and where it ends.
pub open spec fn query_at(tokens: Seq<Token>, pos: int) -> Option<(Seq<Token>, int)> {
    if word_at(tokens, pos, TokenKind::LParen) {
        match closing_paren(tokens, pos + 1, 0) {
            Some(close) => Some((tokens.subrange(pos + 1, close), close + 1)),
            None => None,
        }
    } else {
        None
    }
}

fn query(tokens: &Vec<Token>, pos: usize) -> (res: Option<(Vec<Token>, usize)>)
    requires
        pos <= tokens.len(),
    ensures
        match query_at(tokens@, pos as int) {
            Some((inner, end)) => res matches Some((list, next)) && list@ == inner && next == end
                && pos < next <= tokens.len(),
            None => res is None,
        },
{
    if !is_word_at(tokens, pos, TokenKind::LParen) {
        return None;
    }
    let mut depth: usize = 0;
    let mut p: usize = pos + 1;
    let mut inner: Vec<Token> = Vec::new();
    proof {
        assert(inner@ =~= tokens@.subrange(pos + 1, p as int));
    }
    while p < tokens.len()
        invariant
            pos < p <= tokens.len(),
            depth <= p,
            closing_paren(tokens@, pos + 1, 0) == closing_paren(tokens@, p as int, depth as nat),
            inner@ == tokens@.subrange(pos + 1, p as int),
            word_at(tokens@, pos as int, TokenKind::LParen),
        decreases tokens.len() - p,
    {
        let closes: bool = is_word_at(tokens, p, TokenKind::RParen);
        let opens: bool = is_word_at(tokens, p, TokenKind::LParen);
        if closes {
            if depth == 0 {
                return Some((inner, p + 1));
            }
            depth = depth - 1;
        } else if opens {
            depth = depth + 1;
        }
        inner.push(tokens[p].duplicate());
        proof {
            assert(inner@ =~= tokens@.subrange(pos + 1, p + 1));
        }
        p = p + 1;
    }
    None
}

/// The hint at a place, if there is one, and where the statement goes on.
pub open spec fn hint_at(tokens: Seq<Token>, pos: int) -> (Option<String>, int) {
    if 0 <= pos < tokens.len() {
        match tokens[pos] {
            Token::Hint(h) => (Some(h), pos + 1),
            _ => (None, pos),
        }
    } else {
        (None, pos)
    }
}

fn hint(tokens: &Vec<Token>, pos: usize) -> (res: (Option<String>, usize))
    requires
        pos <= tokens.len(),
    ensures
        res.0 == hint_at(tokens@, pos as int).0,
        res.1 == hint_at(tokens@, pos as int).1,
        pos <= res.1 <= tokens.len(),
{
    if pos >= tokens.len() {
        return (None, pos);
    }
    match &tokens[pos] {
        Token::Hint(h) => (Some(h.clone()), pos + 1),
        _ => (None, pos),
    }
}

/// The options of a copy into a table from a place on, and where they end.
pub open spec fn table_options_from(tokens: Seq<Token>, pos: int) -> (Seq<TableOptionView>, int)
    decreases tokens.len() - pos,
{
    match table_option_at(tokens, pos) {
        Some((option, next)) => if pos < next <= tokens.len() {
            let rest = table_options_from(tokens, next);
            (seq![option] + rest.0, rest.1)
        } else {
            (Seq::empty(), pos)
        },
        None => (Seq::empty(), pos),
    }
}

/// The options of a copy into a location from a place on, and where they
/// end.
pub open spec fn location_options_from(tokens: Seq<Token>, pos: int) -> (
    Seq<LocationOptionView>,
    int,
)
    decreases tokens.len() - pos,
{
    match location_option_at(tokens, pos) {
        Some((option, next)) => if pos < next <= tokens.len() {
            let rest = location_options_from(tokens, next);
            (seq![option] + rest.0, rest.1)
        } else {
            (Seq::empty(), pos)
        },
        None => (Seq::empty(), pos),
    }
}

/// The columns named for the target of a copy, between parentheses, if
/// they are there, and where the statement goes on.
pub open spec fn columns_at(tokens: Seq<Token>, pos: int) -> (Option<Seq<String>>, int) {
    if word_at(tokens, pos, TokenKind::LParen) && ident_at(tokens, pos + 1) is Some {
        let names = items_from(tokens, pos + 1, true);
        if word_at(tokens, names.1, TokenKind::RParen) {
            (Some(names.0), names.1 + 1)
        } else {
            (None, pos)
        }
    } else {
        (None, pos)
    }
}

fn columns(tokens: &Vec<Token>, pos: usize) -> (res: (Option<Vec<String>>, usize))
    requires
        pos <= tokens.len(),
    ensures
        opt_list(res.0) == columns_at(tokens@, pos as int).0,
        res.1 == columns_at(tokens@, pos as int).1,
        pos <= res.1 <= tokens.len(),
{
    if !is_word_at(tokens, pos, TokenKind::LParen) {
        return (None, pos);
    }
    match ident(tokens, pos + 1) {
        None => {
            return (None, pos);
        },
        Some(_) => {},
    }
    let (names, p) = comma_separated_list(tokens, pos + 1, true);
    if !is_word_at(tokens, p, TokenKind::RParen) {
        return (None, pos);
    }
    (Some(names), p + 1)
}

/// The source of a copy into a table at a place: a location, or a
/// statement between parentheses.
pub open spec fn table_source_at(tokens: Seq<Token>, pos: int) -> Option<(TableSourceView, int)> {
    match file_location_at(tokens, pos) {
        Some(location) => Some((TableSourceView::Location(location), pos + 1)),
        None => match query_at(tokens, pos) {
            Some((inner, end)) => Some((TableSourceView::Query(inner), end)),
            None => None,
        },
    }
}

/// The source of a copy into a location at a place: a table, or a
/// statement between parentheses.
pub open spec fn location_source_at(tokens: Seq<Token>, pos: int) -> Option<
    (LocationSourceView, int),
> {
    match table_triple_at(tokens, pos) {
        Some((table, end)) => Some((LocationSourceView::Table(table), end)),
        None => match query_at(tokens, pos) {
            Some((inner, end)) => Some((LocationSourceView::Query(inner), end)),
            None => None,
        },
    }
}

/// What the grammar makes of a copy into a table.
pub open spec fn copy_into_table_reading(tokens: Seq<Token>, pos: int) -> Reading<TableStmtView> {
    if !word_at(tokens, pos, TokenKind::COPY) {
        Reading::Error(pos)
    } else {
        let hinted = hint_at(tokens, pos + 1);
        if !word_at(tokens, hinted.1, TokenKind::INTO) {
            Reading::Error(hinted.1)
        } else {
            match table_triple_at(tokens, hinted.1 + 1) {
                None => Reading::Error(hinted.1 + 1),
                Some((dst, after_dst)) => {
                    let cols = columns_at(tokens, after_dst);
                    if !word_at(tokens, cols.1, TokenKind::FROM) {
                        Reading::Failure(cols.1)
                    } else {
                        match table_source_at(tokens, cols.1 + 1) {
                            None => Reading::Failure(cols.1 + 1),
                            Some((src, after_src)) => {
                                let options = table_options_from(tokens, after_src);
                                Reading::Done(
                                    TableStmtView::plain(hinted.0, src, dst, cols.0).with_options(
                                        options.0,
                                    ),
                                    options.1,
                                )
                            },
                        }
                    }
                },
            }
        }
    }
}

/// What the grammar makes of a copy into a location.
pub open spec fn copy_into_location_reading(tokens: Seq<Token>, pos: int) -> Reading<
    LocationStmtView,
> {
    if !word_at(tokens, pos, TokenKind::COPY) {
        Reading::Error(pos)
    } else {
        let hinted = hint_at(tokens, pos + 1);
        if !word_at(tokens, hinted.1, TokenKind::INTO) {
            Reading::Error(hinted.1)
        } else {
            match file_location_at(tokens, hinted.1 + 1) {
                None => Reading::Error(hinted.1 + 1),
                Some(dst) => {
                    let after_dst = hinted.1 + 2;
                    if !word_at(tokens, after_dst, TokenKind::FROM) {
                        Reading::Failure(after_dst)
                    } else {
                        match location_source_at(tokens, after_dst + 1) {
                            None => Reading::Failure(after_dst + 1),
                            Some((src, after_src)) => {
                                let options = location_options_from(tokens, after_src);
                                Reading::Done(
                                    LocationStmtView::plain(hinted.0, src, dst).with_options(
                                        options.0,
                                    ),
                                    options.1,
                                )
                            },
                        }
                    }
                },
            }
        }
    }
}

/// What the grammar makes of a `COPY` statement: a copy into a location
/// where the tokens read as one; else, unless that reading failed for
/// good, a copy into a table.
pub open spec fn copy_into_reading(tokens: Seq<Token>, pos: int) -> Reading<StatementView> {
    match copy_into_location_reading(tokens, pos) {
        Reading::Done(stmt, end) => Reading::Done(StatementView::CopyIntoLocation(stmt), end),
        Reading::Failure(at) => Reading::Failure(at),
        Reading::Error(_) => match copy_into_table_reading(tokens, pos) {
            Reading::Done(stmt, end) => Reading::Done(StatementView::CopyIntoTable(stmt), end),
            Reading::Failure(at) => Reading::Failure(at),
            Reading::Error(at) => Reading::Error(at),
        },
    }
}

/// Reads a copy into a table.
pub fn copy_into_table(tokens: &Vec<Token>, pos: usize) -> (res: Parsed<CopyIntoTableStmt>)
    requires
        pos <= tokens.len(),
    ensures
        same_view(res, copy_into_table_reading(tokens@, pos as int)),
        res matches Parsed::Done(_, next) ==> pos < next <= tokens.len(),
{
    if !is_word_at(tokens, pos, TokenKind::COPY) {
        return Parsed::Error(pos);
    }
    let (opt_hints, p) = hint(tokens, pos + 1);
    if !is_word_at(tokens, p, TokenKind::INTO) {
        return Parsed::Error(p);
    }
    let (dst, after_dst) = match table_triple(tokens, p + 1) {
        Some(found) => found,
        None => {
            return Parsed::Error(p + 1);
        },
    };
    let (dst_columns, after_cols) = columns(tokens, after_dst);
    if !is_word_at(tokens, after_cols, TokenKind::FROM) {
        return Parsed::Failure(after_cols);
    }
    let (src, after_src) = match file_location(tokens, after_cols + 1) {
        Some(location) => (CopyIntoTableSource::Location(location), after_cols + 2),
        None => match query(tokens, after_cols + 1) {
            Some((inner, end)) => (CopyIntoTableSource::Query(inner), end),
            None => {
                return Parsed::Failure(after_cols + 1);
            },
        },
    };
    let mut copy_stmt = CopyIntoTableStmt::new(opt_hints, src, dst, dst_columns);
    let ghost base = copy_stmt@;
    let ghost whole = table_options_from(tokens@, after_src as int);
    let ghost mut taken: Seq<TableOptionView> = Seq::empty();
    let mut q: usize = after_src;
    proof {
        assert(taken + whole.0 =~= whole.0);
    }
    loop
        invariant_except_break
            after_src <= q <= tokens.len(),
            taken + table_options_from(tokens@, q as int).0 == whole.0,
            table_options_from(tokens@, q as int).1 == whole.1,
            copy_stmt@ == base.with_options(taken),
        ensures
            copy_stmt@ == base.with_options(whole.0),
            q == whole.1,
            after_src <= q <= tokens.len(),
        decreases tokens.len() - q,
    {
        match copy_into_table_option(tokens, q) {
            Parsed::Done(opt, next) => {
                proof {
                    let rest = table_options_from(tokens@, next as int);
                    let grown = taken.push(opt@);
                    assert(grown + rest.0 =~= taken + (seq![opt@] + rest.0));
                    assert(grown.drop_last() =~= taken);
                    taken = grown;
                }
                copy_stmt.apply_option(opt);
                q = next;
            },
            _ => {
                proof {
                    assert(taken + Seq::<TableOptionView>::empty() =~= taken);
                }
                break ;
            },
        }
    }
    Parsed::Done(copy_stmt, q)
}

/// Reads a copy into a location.
pub fn copy_into_location(tokens: &Vec<Token>, pos: usize) -> (res: Parsed<CopyIntoLocationStmt>)
    requires
        pos <= tokens.len(),
    ensures
        same_view(res, copy_into_location_reading(tokens@, pos as int)),
        res matches Parsed::Done(_, next) ==> pos < next <= tokens.len(),
{
    if !is_word_at(tokens, pos, TokenKind::COPY) {
        return Parsed::Error(pos);
    }
    let (opt_hints, p) = hint(tokens, pos + 1);
    if !is_word_at(tokens, p, TokenKind::INTO) {
        return Parsed::Error(p);
    }
    let dst: FileLocation = match file_location(tokens, p + 1) {
        Some(found) => found,
        None => {
            return Parsed::Error(p + 1);
        },
    };
    let after_dst: usize = p + 2;
    if !is_word_at(tokens, after_dst, TokenKind::FROM) {
        return Parsed::Failure(after_dst);
    }
    let (src, after_src) = match table_triple(tokens, after_dst + 1) {
        Some((table, end)) => (CopyIntoLocationSource::Table(table), end),
        None => match query(tokens, after_dst + 1) {
            Some((inner, end)) => (CopyIntoLocationSource::Query(inner), end),
            None => {
                return Parsed::Failure(after_dst + 1);
            },
        },
    };
    let mut copy_stmt = CopyIntoLocationStmt::new(opt_hints, src, dst);
    let ghost base = copy_stmt@;
    let ghost whole = location_options_from(tokens@, after_src as int);
    let ghost mut taken: Seq<LocationOptionView> = Seq::empty();
    let mut q: usize = after_src;
    proof {
        assert(taken + whole.0 =~= whole.0);
    }
    loop
        invariant_except_break
            after_src <= q <= tokens.len(),
            taken + location_options_from(tokens@, q as int).0 == whole.0,
            location_options_from(tokens@, q as int).1 == whole.1,
            copy_stmt@ == base.with_options(taken),
        ensures
            copy_stmt@ == base.with_options(whole.0),
            q == whole.1,
            after_src <= q <= tokens.len(),
        decreases tokens.len() - q,
    {
        match copy_into_location_option(tokens, q) {
            Parsed::Done(opt, next) => {
                proof {
                    let rest = location_options_from(tokens@, next as int);
                    let grown = taken.push(opt@);
                    assert(grown + rest.0 =~= taken + (seq![opt@] + rest.0));
                    assert(grown.drop_last() =~= taken);
                    taken = grown;
                }
                copy_stmt.apply_option(opt);
                q = next;
            },
            _ => {
                proof {
                    assert(taken + Seq::<LocationOptionView>::empty() =~= taken);
                }
                break ;
            },
        }
    }
    Parsed::Done(copy_stmt, q)
}

/// Reads a `COPY` statement: into a location or into a table.
pub fn copy_into(tokens: &Vec<Token>, pos: usize) -> (res: Parsed<Statement>)
    requires
        pos <= tokens.len(),
    ensures
        same_view(res, copy_into_reading(tokens@, pos as int)),
        res matches Parsed::Done(_, next) ==> pos < next <= tokens.len(),
{
    match copy_into_location(tokens, pos) {
        Parsed::Done(stmt, next) => Parsed::Done(Statement::CopyIntoLocation(stmt), next),
        Parsed::Failure(at) => Parsed::Failure(at),
        Parsed::Error(_) => match copy_into_table(tokens, pos) {
            Parsed::Done(stmt, next) => Parsed::Done(Statement::CopyIntoTable(stmt), next),
            Parsed::Failure(at) => Parsed::Failure(at),
            Parsed::Error(at) => Parsed::Error(at),
        },
    }
}

} // verus!
