//! Finding the tokens of a judgement with a regular expression.
//!
//! The token kinds of a family are an ordered table of named patterns. They
//! are joined into one regular expression, an alternation of named groups,
//! which the `regex` crate compiles and runs. What the expression matches is
//! taken on trust; what is made of the matches is verified: the text
//! between two matches must be blank, and the kind of a match is the last
//! named group that took part in it.

use vstd::prelude::*;
use vstd::string::*;
use regex::Regex;
use crate::error::Error;

verus! {

/// The compiled regular expression of the `regex` crate. It is carried
/// from where it is compiled to where it is run, and not looked into.
#[verifier::external_type_specification]
#[verifier::external_body]
pub struct ExRegex(Regex);

/// Whether `Regex::new` takes the pattern: whether it is a regular
/// expression of the `regex` crate that stays within the crate's size
/// limit.
pub uninterp spec fn regex_compiles(pattern: Seq<char>) -> bool;

/// The pattern that a regular expression was compiled from, as
/// `Regex::as_str` returns it.
pub uninterp spec fn regex_source(re: Regex) -> Seq<char>;

/// The successive matches in `text` of the regular expression compiled from
/// `pattern`, as `Regex::captures_iter` yields them: of each match the byte
/// at which it starts, the byte behind its end, and for each of `names`
/// whether the group of that name took part in it.
pub uninterp spec fn regex_captures(
    pattern: Seq<char>,
    names: Seq<Seq<char>>,
    text: Seq<char>,
) -> Seq<(usize, usize, Seq<bool>)>;

/// One match of the regular expression.
#[derive(Debug, PartialEq)]
pub struct Lexeme {
    /// The byte at which the match starts.
    pub start: usize,
    /// The byte behind the end of the match.
    pub end: usize,
    /// For each name of the pattern table, in its order, whether the group of
    /// that name took part in the match.
    pub groups: Vec<bool>,
}

impl View for Lexeme {
    type V = (usize, usize, Seq<bool>);

    open spec fn view(&self) -> (usize, usize, Seq<bool>) {
        (self.start, self.end, self.groups@)
    }
}

/// What a sequence of lexemes stands for.
pub open spec fn lexeme_views(lexemes: Seq<Lexeme>) -> Seq<(usize, usize, Seq<bool>)> {
    Seq::new(lexemes.len(), |i: int| lexemes[i]@)
}

/// The texts of a sequence of names.
pub open spec fn name_views(names: Seq<&'static str>) -> Seq<Seq<char>> {
    Seq::new(names.len(), |i: int| names[i]@)
}

/// Compiles a pattern with `Regex::new`, and gives nothing where that
/// fails. Whether it fails depends on the pattern alone, and the compiled
/// expression reports the pattern it was given as its source.
#[verifier::external_body]
fn compile(pattern: &str) -> (r: Option<Regex>)
    ensures
        r is Some <==> regex_compiles(pattern@),
        r matches Some(re) ==> regex_source(re) == pattern@,
{
    Regex::new(pattern).ok()
}

/// Runs `Regex::captures_iter` over `text` and gives, for each match in
/// turn, its bounds from `Captures::get_match` and the named groups that
/// `Captures::name` finds in it.
#[verifier::external_body]
fn captures(re: &Regex, names: &Vec<&'static str>, text: &str) -> (r: Vec<Lexeme>)
    ensures
        lexeme_views(r@) == regex_captures(regex_source(*re), name_views(names@), text@),
{
    re.captures_iter(text).map(
        |found| {
            let whole = found.get_match();
            Lexeme {
                start: whole.start(),
                end: whole.end(),
                groups: names.iter().map(|name| found.name(name).is_some()).collect(),
            }
        },
    ).collect()
}

/// A token found in the text: the index of its kind in the pattern table,
/// and the bytes it covers.
#[derive(Debug, Clone, Copy, PartialEq, Eq, Structural)]
pub struct Piece {
    pub kind: usize,
    pub start: usize,
    pub end: usize,
}

/// Whether a character separates tokens: blank, tab or line end.
pub open spec fn is_blank(c: char) -> bool {
    c as u32 == 32 || c as u32 == 9 || c as u32 == 10 || c as u32 == 13
}

/// Whether the characters `from..to` of `text` are all blank.
pub open spec fn blank_between(text: Seq<char>, from: int, to: int) -> bool {
    forall|i: int| from <= i < to ==> is_blank(#[trigger] text[i])
}

/// The index of the last of the first `count` groups that took part in a
/// match.
pub open spec fn last_group(groups: Seq<bool>, count: nat) -> Option<nat>
    decreases count,
{
    if count == 0 || count > groups.len() {
        None
    } else if groups[count - 1] {
        Some((count - 1) as nat)
    } else {
        last_group(groups, (count - 1) as nat)
    }
}

/// The byte behind the last of the first `count` lexemes, or 0 before the
/// first.
pub open spec fn end_of(lexemes: Seq<(usize, usize, Seq<bool>)>, count: nat) -> int {
    if count == 0 || count > lexemes.len() {
        0
    } else {
        lexemes[count - 1].1 as int
    }
}

/// The pieces that the first `count` lexemes give. It is an error where a
/// lexeme does not lie behind the one before it or within the text, where
/// the text between the two is not blank, or where no named group took part
/// in it.
pub open spec fn pieces_upto(
    text: Seq<char>,
    lexemes: Seq<(usize, usize, Seq<bool>)>,
    count: nat,
) -> Result<Seq<Piece>, Error>
    decreases count,
{
    if count == 0 || count > lexemes.len() {
        Ok(Seq::empty())
    } else {
        match pieces_upto(text, lexemes, (count - 1) as nat) {
            Err(e) => Err(e),
            Ok(pieces) => {
                let (start, end, groups) = lexemes[count - 1];
                let from = end_of(lexemes, (count - 1) as nat);
                if from <= start <= end <= text.len() && blank_between(text, from, start as int) {
                    match last_group(groups, groups.len()) {
                        Some(kind) => if kind <= usize::MAX {
                            Ok(pieces.push(Piece { kind: kind as usize, start, end }))
                        } else {
                            Err(Error::UnknownText)
                        },
                        None => Err(Error::UnknownText),
                    }
                } else {
                    Err(Error::UnknownText)
                }
            },
        }
    }
}

/// The pieces of a text whose matches are `lexemes`: those of all lexemes,
/// where the text is ASCII and blank behind the last lexeme.
pub open spec fn pieces_of(text: Seq<char>, lexemes: Seq<(usize, usize, Seq<bool>)>) -> Result<
    Seq<Piece>,
    Error,
> {
    if !vstd::utf8::is_ascii_chars(text) {
        Err(Error::UnknownText)
    } else {
        match pieces_upto(text, lexemes, lexemes.len()) {
            Err(e) => Err(e),
            Ok(pieces) => if blank_between(
                text,
                end_of(lexemes, lexemes.len()),
                text.len() as int,
            ) {
                Ok(pieces)
            } else {
                Err(Error::UnknownText)
            },
        }
    }
}

fn last_set(groups: &Vec<bool>) -> (r: Option<usize>)
    ensures
        match r {
            Some(kind) => last_group(groups@, groups@.len()) == Some(kind as nat),
            None => last_group(groups@, groups@.len()) is None,
        },
{
    let mut count: usize = groups.len();
    while count > 0
        invariant
            count <= groups.len(),
            last_group(groups@, groups@.len()) == last_group(groups@, count as nat),
        decreases count,
    {
        if groups[count - 1] {
            return Some(count - 1);
        }
        count -= 1;
    }
    None
}

fn is_blank_range(text: &str, from: usize, to: usize) -> (r: bool)
    requires
        text.is_ascii(),
        from <= to <= text@.len(),
    ensures
        r == blank_between(text@, from as int, to as int),
{
    let mut i: usize = from;
    while i < to
        invariant
            text.is_ascii(),
            from <= i <= to <= text@.len(),
            blank_between(text@, from as int, i as int),
        decreases to - i,
    {
        let byte = text.get_ascii(i);
        if !(byte == 32 || byte == 9 || byte == 10 || byte == 13) {
            assert(!is_blank(text@[i as int]));
            return false;
        }
        assert(is_blank(text@[i as int]));
        i += 1;
    }
    true
}

/// Once the lexemes up to some count are in error, so are all of them.
pub proof fn lemma_pieces_error_stays(
    text: Seq<char>,
    lexemes: Seq<(usize, usize, Seq<bool>)>,
    count: nat,
    more: nat,
)
    requires
        count <= more <= lexemes.len(),
        pieces_upto(text, lexemes, count) is Err,
    ensures
        pieces_upto(text, lexemes, more) == pieces_upto(text, lexemes, count),
    decreases more,
{
    if count < more {
        lemma_pieces_error_stays(text, lexemes, count, (more - 1) as nat);
    }
}

/// Makes the pieces of a text from the matches found in it.
pub fn pieces_from(text: &str, lexemes: &Vec<Lexeme>) -> (r: Result<Vec<Piece>, Error>)
    ensures
        match pieces_of(text@, lexeme_views(lexemes@)) {
            Ok(pieces) => r is Ok && r->Ok_0@ == pieces,
            Err(e) => r == Err::<Vec<Piece>, Error>(e),
        },
{
    if !text.is_ascii() {
        return Err(Error::UnknownText);
    }
    let len = text.unicode_len();
    let ghost views = lexeme_views(lexemes@);
    let mut pieces: Vec<Piece> = Vec::new();
    let mut from: usize = 0;
    let mut i: usize = 0;
    while i < lexemes.len()
        invariant
            text.is_ascii(),
            len == text@.len(),
            views == lexeme_views(lexemes@),
            i <= lexemes.len(),
            from == end_of(views, i as nat),
            from <= len,
            pieces_upto(text@, views, i as nat) == Ok::<Seq<Piece>, Error>(pieces@),
        decreases lexemes.len() - i,
    {
        let start = lexemes[i].start;
        let end = lexemes[i].end;
        assert(views[i as int] == lexemes@[i as int]@);
        let placed = from <= start && start <= end && end <= len && is_blank_range(
            text,
            from,
            start,
        );
        let kind = last_set(&lexemes[i].groups);
        match (placed, kind) {
            (true, Some(kind)) => {
                pieces.push(Piece { kind, start, end });
                proof {
                    let view = views[i as int];
                    assert(view.0 == start && view.1 == end && view.2 == lexemes@[i as int].groups@);
                    assert(last_group(view.2, view.2.len()) == Some(kind as nat));
                    assert(pieces_upto(text@, views, (i + 1) as nat) == Ok::<Seq<Piece>, Error>(
                        pieces@,
                    ));
                }
            },
            _ => {
                proof {
                    lemma_pieces_error_stays(text@, views, (i + 1) as nat, views.len());
                }
                return Err(Error::UnknownText);
            },
        }
        from = end;
        i += 1;
    }
    if is_blank_range(text, from, len) {
        Ok(pieces)
    } else {
        Err(Error::UnknownText)
    }
}

/// The regular expression of a pattern table: for each entry a group with
/// the entry's name around the entry's pattern, the groups joined by `|`.
pub open spec fn alternation(patterns: Seq<(&'static str, &'static str)>, count: nat) -> Seq<char>
    decreases count,
{
    if count == 0 || count > patterns.len() {
        Seq::empty()
    } else {
        alternation(patterns, (count - 1) as nat) + (if count == 1 {
            Seq::<char>::empty()
        } else {
            "|"@
        }) + "(?P<"@ + patterns[count - 1].0@ + ">"@ + patterns[count - 1].1@ + ")"@
    }
}

/// The names of a pattern table, in its order.
pub open spec fn table_names(patterns: Seq<(&'static str, &'static str)>) -> Seq<Seq<char>> {
    Seq::new(patterns.len(), |i: int| patterns[i].0@)
}

/// Joins the patterns of a table into one regular expression.
pub fn make_regex(token_patterns: &Vec<(&'static str, &'static str)>) -> (r: String)
    ensures
        r@ == alternation(token_patterns@, token_patterns@.len()),
{
    let mut r = String::new();
    let mut i: usize = 0;
    while i < token_patterns.len()
        invariant
            i <= token_patterns.len(),
            r@ == alternation(token_patterns@, i as nat),
        decreases token_patterns.len() - i,
    {
        if i > 0 {
            r.append("|");
        } else {
            assert(r@ + Seq::<char>::empty() =~= r@);
        }
        r.append("(?P<");
        r.append(token_patterns[i].0);
        r.append(">");
        r.append(token_patterns[i].1);
        r.append(")");
        i += 1;
    }
    r
}

/// The names of a pattern table, in its order.
pub fn get_names(token_patterns: &Vec<(&'static str, &'static str)>) -> (r: Vec<&'static str>)
    ensures
        name_views(r@) == table_names(token_patterns@),
{
    let mut r: Vec<&'static str> = Vec::new();
    let mut i: usize = 0;
    while i < token_patterns.len()
        invariant
            i <= token_patterns.len(),
            r.len() == i,
            forall|k: int| 0 <= k < i ==> r[k]@ == token_patterns[k].0@,
        decreases token_patterns.len() - i,
    {
        r.push(token_patterns[i].0);
        i += 1;
    }
    assert(name_views(r@) =~= table_names(token_patterns@));
    r
}

/// A compiled pattern table.
pub struct Scanner {
    re: Regex,
    names: Vec<&'static str>,
}

impl Scanner {
    /// The regular expression that the scanner runs.
    pub closed spec fn pattern(&self) -> Seq<char> {
        regex_source(self.re)
    }

    /// The names of the token kinds, in the order of the pattern table.
    pub closed spec fn names(&self) -> Seq<Seq<char>> {
        name_views(self.names@)
    }

    /// Compiles a pattern table. It fails where the patterns, joined into
    /// one, do not form a regular expression that the `regex` crate takes.
    pub fn new(token_patterns: &Vec<(&'static str, &'static str)>) -> (r: Result<Scanner, Error>)
        ensures
            r is Ok <==> regex_compiles(alternation(token_patterns@, token_patterns@.len())),
            r matches Ok(scanner) ==> scanner.pattern() == alternation(
                token_patterns@,
                token_patterns@.len(),
            ) && scanner.names() == table_names(token_patterns@),
            r matches Err(e) ==> e == Error::Pattern,
    {
        let pattern = make_regex(token_patterns);
        let names = get_names(token_patterns);
        match compile(pattern.as_str()) {
            Some(re) => Ok(Scanner { re, names }),
            None => Err(Error::Pattern),
        }
    }

    /// Finds the tokens of `text`: for each the index of its kind in the
    /// pattern table and the bytes it covers.
    pub fn scan(&self, text: &str) -> (r: Result<Vec<Piece>, Error>)
        ensures
            match pieces_of(text@, regex_captures(self.pattern(), self.names(), text@)) {
                Ok(pieces) => r is Ok && r->Ok_0@ == pieces,
                Err(e) => r == Err::<Vec<Piece>, Error>(e),
            },
    {
        let lexemes = captures(&self.re, &self.names, text);
        pieces_from(text, &lexemes)
    }
}

} // verus!
