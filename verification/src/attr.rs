//! The modifier-block parser: a bracketed, comma-separated payload such as
//! `(alias = "Cat", name = "Dog")` is read into an ordered list of
//! modifiers. The keys `alias` and `name` are the only ones recognized, and
//! each requires a `= "string-literal"` assignment; any other key, or a key
//! without the assignment, fails the whole parse.

use vstd::prelude::*;

use crate::decl::{Modifier, ModifierModel};
use crate::text::str_eq;

verus! {

/// The characters that separate tokens inside a modifier block.
pub open spec fn is_space(c: char) -> bool {
    c == ' ' || c == '\t' || c == '\n' || c == '\r'
}

/// The characters that may start a key.
pub open spec fn is_ident_start(c: char) -> bool {
    ('a' as u32 <= c as u32 && c as u32 <= 'z' as u32) || ('A' as u32 <= c as u32 && c as u32
        <= 'Z' as u32) || c == '_'
}

/// The characters that may continue a key.
pub open spec fn is_ident_char(c: char) -> bool {
    is_ident_start(c) || ('0' as u32 <= c as u32 && c as u32 <= '9' as u32)
}

/// The first position at or after `i` holding a non-space character, or the
/// end of the sequence.
pub open spec fn skip_spaces(s: Seq<char>, i: nat) -> nat
    decreases s.len() - i,
{
    if i >= s.len() {
        i
    } else if is_space(s[i as int]) {
        skip_spaces(s, (i + 1) as nat)
    } else {
        i
    }
}

/// The first position at or after `i` holding a character that cannot
/// continue a key, or the end of the sequence.
pub open spec fn scan_ident(s: Seq<char>, i: nat) -> nat
    decreases s.len() - i,
{
    if i >= s.len() {
        i
    } else if is_ident_char(s[i as int]) {
        scan_ident(s, (i + 1) as nat)
    } else {
        i
    }
}

/// The first position at or after `i` holding a double quote, or the end of
/// the sequence when the literal is unterminated.
pub open spec fn scan_string(s: Seq<char>, i: nat) -> nat
    decreases s.len() - i,
{
    if i >= s.len() {
        i
    } else if s[i as int] == '"' {
        i
    } else {
        scan_string(s, (i + 1) as nat)
    }
}

pub proof fn lemma_skip_spaces_bounds(s: Seq<char>, i: nat)
    requires
        i <= s.len(),
    ensures
        i <= skip_spaces(s, i) <= s.len(),
    decreases s.len() - i,
{
    if i < s.len() && is_space(s[i as int]) {
        lemma_skip_spaces_bounds(s, (i + 1) as nat);
    }
}

pub proof fn lemma_scan_ident_bounds(s: Seq<char>, i: nat)
    requires
        i <= s.len(),
    ensures
        i <= scan_ident(s, i) <= s.len(),
    decreases s.len() - i,
{
    if i < s.len() && is_ident_char(s[i as int]) {
        lemma_scan_ident_bounds(s, (i + 1) as nat);
    }
}

pub proof fn lemma_scan_string_bounds(s: Seq<char>, i: nat)
    requires
        i <= s.len(),
    ensures
        i <= scan_string(s, i) <= s.len(),
    decreases s.len() - i,
{
    if i < s.len() && s[i as int] != '"' {
        lemma_scan_string_bounds(s, (i + 1) as nat);
    }
}

/// The failure of a modifier-block parse: a key without its `= "..."`
/// assignment, a key other than `alias` or `name`, or a payload that does
/// not follow the bracketed comma-separated shape at all.
#[derive(Debug)]
pub enum AttrError {
    UnknownKey(String),
    MissingAssignment(String),
    Malformed,
}

/// The mathematical model of an `AttrError`.
pub enum AttrErrorModel {
    UnknownKey(Seq<char>),
    MissingAssignment(Seq<char>),
    Malformed,
}

impl View for AttrError {
    type V = AttrErrorModel;

    open spec fn view(&self) -> AttrErrorModel {
        match self {
            AttrError::UnknownKey(k) => AttrErrorModel::UnknownKey(k@),
            AttrError::MissingAssignment(k) => AttrErrorModel::MissingAssignment(k@),
            AttrError::Malformed => AttrErrorModel::Malformed,
        }
    }
}

/// The items of a modifier block, read from position `i` (the first
/// non-space position inside the parentheses) to the closing parenthesis:
/// each item is a key, `=`, and a quoted text, and items are separated by
/// commas, with a trailing comma allowed. Nothing but spaces may follow the
/// closing parenthesis.
pub open spec fn parse_items(s: Seq<char>, i: nat) -> Result<Seq<ModifierModel>, AttrErrorModel>
    decreases s.len() - i,
    via parse_items_decreases
{
    if i >= s.len() {
        Err(AttrErrorModel::Malformed)
    } else if s[i as int] == ')' {
        if skip_spaces(s, (i + 1) as nat) == s.len() {
            Ok(Seq::empty())
        } else {
            Err(AttrErrorModel::Malformed)
        }
    } else if !is_ident_start(s[i as int]) {
        Err(AttrErrorModel::Malformed)
    } else {
        let j = scan_ident(s, (i + 1) as nat);
        let key = s.subrange(i as int, j as int);
        let k = skip_spaces(s, j);
        if !(k < s.len() && s[k as int] == '=') {
            Err(AttrErrorModel::MissingAssignment(key))
        } else if key != "alias"@ && key != "name"@ {
            Err(AttrErrorModel::UnknownKey(key))
        } else {
            let m = skip_spaces(s, (k + 1) as nat);
            if !(m < s.len() && s[m as int] == '"') {
                Err(AttrErrorModel::Malformed)
            } else {
                let q = scan_string(s, (m + 1) as nat);
                if q >= s.len() {
                    Err(AttrErrorModel::Malformed)
                } else {
                    let val = s.subrange(m as int + 1, q as int);
                    let mv = if key == "alias"@ {
                        ModifierModel::Alias(val)
                    } else {
                        ModifierModel::Name(val)
                    };
                    let r = skip_spaces(s, (q + 1) as nat);
                    if r < s.len() && s[r as int] == ',' {
                        match parse_items(s, skip_spaces(s, (r + 1) as nat)) {
                            Ok(rest) => Ok(seq![mv] + rest),
                            Err(e) => Err(e),
                        }
                    } else if r < s.len() && s[r as int] == ')' {
                        if skip_spaces(s, (r + 1) as nat) == s.len() {
                            Ok(seq![mv])
                        } else {
                            Err(AttrErrorModel::Malformed)
                        }
                    } else {
                        Err(AttrErrorModel::Malformed)
                    }
                }
            }
        }
    }
}

#[via_fn]
proof fn parse_items_decreases(s: Seq<char>, i: nat) {
    if i < s.len() && s[i as int] != ')' && is_ident_start(s[i as int]) {
        lemma_scan_ident_bounds(s, (i + 1) as nat);
        let j = scan_ident(s, (i + 1) as nat);
        lemma_skip_spaces_bounds(s, j);
        let k = skip_spaces(s, j);
        if k < s.len() {
            lemma_skip_spaces_bounds(s, (k + 1) as nat);
            let m = skip_spaces(s, (k + 1) as nat);
            if m < s.len() {
                lemma_scan_string_bounds(s, (m + 1) as nat);
                let q = scan_string(s, (m + 1) as nat);
                if q < s.len() {
                    lemma_skip_spaces_bounds(s, (q + 1) as nat);
                    let r = skip_spaces(s, (q + 1) as nat);
                    if r < s.len() {
                        lemma_skip_spaces_bounds(s, (r + 1) as nat);
                    }
                }
            }
        }
    }
}

/// The whole modifier block: spaces, one parenthesized item list, spaces,
/// and nothing else.
pub open spec fn spec_parse_modifiers(s: Seq<char>) -> Result<Seq<ModifierModel>, AttrErrorModel> {
    let i = skip_spaces(s, 0);
    if i < s.len() && s[i as int] == '(' {
        parse_items(s, skip_spaces(s, (i + 1) as nat))
    } else {
        Err(AttrErrorModel::Malformed)
    }
}

fn is_space_exec(c: char) -> (r: bool)
    ensures
        r == is_space(c),
{
    c == ' ' || c == '\t' || c == '\n' || c == '\r'
}

fn is_ident_start_exec(c: char) -> (r: bool)
    ensures
        r == is_ident_start(c),
{
    let x: u32 = c as u32;
    ('a' as u32 <= x && x <= 'z' as u32) || ('A' as u32 <= x && x <= 'Z' as u32) || c == '_'
}

fn is_ident_char_exec(c: char) -> (r: bool)
    ensures
        r == is_ident_char(c),
{
    let x: u32 = c as u32;
    is_ident_start_exec(c) || ('0' as u32 <= x && x <= '9' as u32)
}

fn skip_spaces_exec(s: &str, i: usize) -> (r: usize)
    requires
        i <= s@.len(),
    ensures
        r == skip_spaces(s@, i as nat),
        i <= r <= s@.len(),
{
    let n = s.unicode_len();
    let mut j: usize = i;
    while j < n && is_space_exec(s.get_char(j))
        invariant
            i <= j <= n,
            n == s@.len(),
            skip_spaces(s@, i as nat) == skip_spaces(s@, j as nat),
        decreases n - j,
    {
        j = j + 1;
    }
    j
}

fn scan_ident_exec(s: &str, i: usize) -> (r: usize)
    requires
        i <= s@.len(),
    ensures
        r == scan_ident(s@, i as nat),
        i <= r <= s@.len(),
{
    let n = s.unicode_len();
    let mut j: usize = i;
    while j < n && is_ident_char_exec(s.get_char(j))
        invariant
            i <= j <= n,
            n == s@.len(),
            scan_ident(s@, i as nat) == scan_ident(s@, j as nat),
        decreases n - j,
    {
        j = j + 1;
    }
    j
}

fn scan_string_exec(s: &str, i: usize) -> (r: usize)
    requires
        i <= s@.len(),
    ensures
        r == scan_string(s@, i as nat),
        i <= r <= s@.len(),
{
    let n = s.unicode_len();
    let mut j: usize = i;
    while j < n && s.get_char(j) != '"'
        invariant
            i <= j <= n,
            n == s@.len(),
            scan_string(s@, i as nat) == scan_string(s@, j as nat),
        decreases n - j,
    {
        j = j + 1;
    }
    j
}

/// Parses a modifier block, as `spec_parse_modifiers` describes: the
/// modifiers in source order on success, and otherwise the failure, naming
/// the offending key where one is at fault.
pub fn parse_modifiers(s: &str) -> (r: Result<Vec<Modifier>, AttrError>)
    ensures
        match r {
            Ok(v) => spec_parse_modifiers(s@) == Ok::<Seq<ModifierModel>, AttrErrorModel>(
                v.deep_view(),
            ),
            Err(e) => spec_parse_modifiers(s@) == Err::<Seq<ModifierModel>, AttrErrorModel>(e@),
        },
{
    let n = s.unicode_len();
    let i0 = skip_spaces_exec(s, 0);
    if !(i0 < n && s.get_char(i0) == '(') {
        return Err(AttrError::Malformed);
    }
    let mut cur = skip_spaces_exec(s, i0 + 1);
    let mut acc: Vec<Modifier> = Vec::new();
    proof {
        assert(acc.deep_view() =~= Seq::<ModifierModel>::empty());
        match parse_items(s@, cur as nat) {
            Ok(rest) => {
                assert(Seq::<ModifierModel>::empty() + rest =~= rest);
            },
            Err(_) => {},
        }
    }
    loop
        invariant
            cur <= n,
            n == s@.len(),
            match parse_items(s@, cur as nat) {
                Ok(rest) => spec_parse_modifiers(s@) == Ok::<Seq<ModifierModel>, AttrErrorModel>(
                    acc.deep_view() + rest,
                ),
                Err(e) => spec_parse_modifiers(s@) == Err::<Seq<ModifierModel>, AttrErrorModel>(e),
            },
        decreases n - cur,
    {
        if cur >= n {
            return Err(AttrError::Malformed);
        }
        let c = s.get_char(cur);
        if c == ')' {
            let t = skip_spaces_exec(s, cur + 1);
            if t == n {
                proof {
                    assert(acc.deep_view() + Seq::<ModifierModel>::empty() =~= acc.deep_view());
                }
                return Ok(acc);
            } else {
                return Err(AttrError::Malformed);
            }
        }
        if !is_ident_start_exec(c) {
            return Err(AttrError::Malformed);
        }
        let j = scan_ident_exec(s, cur + 1);
        let key = s.substring_char(cur, j);
        let k = skip_spaces_exec(s, j);
        if !(k < n && s.get_char(k) == '=') {
            return Err(AttrError::MissingAssignment(String::from_str(key)));
        }
        let is_alias = str_eq(key, "alias");
        let is_name = str_eq(key, "name");
        if !is_alias && !is_name {
            return Err(AttrError::UnknownKey(String::from_str(key)));
        }
        let m = skip_spaces_exec(s, k + 1);
        if !(m < n && s.get_char(m) == '"') {
            return Err(AttrError::Malformed);
        }
        let q = scan_string_exec(s, m + 1);
        if q >= n {
            return Err(AttrError::Malformed);
        }
        let val = String::from_str(s.substring_char(m + 1, q));
        let mv = if is_alias {
            Modifier::Alias(val)
        } else {
            Modifier::Name(val)
        };
        proof {
            assert(mv@ == (if s@.subrange(cur as int, j as int) == "alias"@ {
                ModifierModel::Alias(s@.subrange(m as int + 1, q as int))
            } else {
                ModifierModel::Name(s@.subrange(m as int + 1, q as int))
            }));
        }
        let rpos = skip_spaces_exec(s, q + 1);
        if rpos < n && s.get_char(rpos) == ',' {
            let next = skip_spaces_exec(s, rpos + 1);
            proof {
                assert(acc.deep_view().len() == acc@.len());
            }
            let ghost acc_before = acc.deep_view();
            acc.push(mv);
            proof {
                assert(acc.deep_view() =~= acc_before.push(mv@));
                match parse_items(s@, next as nat) {
                    Ok(rest) => {
                        assert(parse_items(s@, cur as nat) == Ok::<
                            Seq<ModifierModel>,
                            AttrErrorModel,
                        >(seq![mv@] + rest));
                        assert(acc_before + (seq![mv@] + rest) =~= acc_before.push(mv@) + rest);
                    },
                    Err(_) => {},
                }
            }
            cur = next;
        } else if rpos < n && s.get_char(rpos) == ')' {
            let t = skip_spaces_exec(s, rpos + 1);
            if t == n {
                proof {
                    assert(acc.deep_view().len() == acc@.len());
                }
                let ghost acc_before = acc.deep_view();
                acc.push(mv);
                proof {
                    assert(acc.deep_view() =~= acc_before.push(mv@));
                    assert(parse_items(s@, cur as nat) == Ok::<Seq<ModifierModel>, AttrErrorModel>(
                        seq![mv@],
                    ));
                    assert(acc_before + seq![mv@] =~= acc_before.push(mv@));
                }
                return Ok(acc);
            } else {
                return Err(AttrError::Malformed);
            }
        } else {
            return Err(AttrError::Malformed);
        }
    }
}

} // verus!
