//! Constructor names: snake case and the escape of reserved words.
use vstd::prelude::*;
use vstd::string::*;

verus! {

/// What `syn::parse_str::<syn::Ident>` decides of a text: whether it is one
/// identifier that may stand where an identifier is expected.
pub uninterp spec fn is_plain_ident(s: Seq<char>) -> bool;

/// Relies on `syn::parse_str::<syn::Ident>`: it succeeds on a text that is one
/// identifier other than a reserved word (a raw identifier is accepted).
#[verifier::external_body]
pub(crate) fn parses_as_ident(s: &str) -> (r: bool)
    ensures
        r == is_plain_ident(s@),
{
    syn::parse_str::<syn::Ident>(s).is_ok()
}

/// What `char::is_numeric` decides of a character.
pub uninterp spec fn numeric_char(c: char) -> bool;

/// Relies on `char::is_numeric`: true for the characters of the Unicode
/// number categories, among them the ASCII digits and none of the ASCII
/// letters or `_`.
#[verifier::external_body]
fn is_numeric(c: char) -> (r: bool)
    ensures
        r == numeric_char(c),
        '0' <= c <= '9' ==> r,
        ('a' <= c <= 'z' || 'A' <= c <= 'Z' || c == '_') ==> !r,
{
    c.is_numeric()
}

/// Relies on `String::push`: appends the character.
#[verifier::external_body]
fn push_char(s: &mut String, c: char)
    ensures
        final(s)@ == old(s)@.push(c),
{
    s.push(c)
}

pub open spec fn is_ascii_upper(c: char) -> bool {
    'A' <= c <= 'Z'
}

pub open spec fn is_ascii_lower(c: char) -> bool {
    'a' <= c <= 'z'
}

/// The ASCII lower case of `c`; any other character is kept.
pub open spec fn ascii_lower(c: char) -> char {
    if is_ascii_upper(c) {
        ((c as u8) + 32) as char
    } else {
        c
    }
}

/// Characters that continue a lower-case run.
pub open spec fn lower_or_numeric(c: char) -> bool {
    is_ascii_lower(c) || numeric_char(c)
}

/// The snake case of `s`, where `after_lower` says whether the character
/// before `s` continued a lower-case run. Every `_` is kept and ends a run; a
/// character that neither is lower case nor numeric, right after a run, is
/// preceded by a `_`; every letter is lowered.
pub open spec fn snake_from(s: Seq<char>, after_lower: bool) -> Seq<char>
    decreases s.len(),
{
    if s.len() == 0 {
        Seq::empty()
    } else if s[0] == '_' {
        seq!['_'] + snake_from(s.drop_first(), false)
    } else {
        let run = lower_or_numeric(s[0]);
        let sep: Seq<char> = if after_lower && !run { seq!['_'] } else { Seq::empty() };
        sep + seq![ascii_lower(s[0])] + snake_from(s.drop_first(), run)
    }
}

pub open spec fn snake_case(s: Seq<char>) -> Seq<char> {
    snake_from(s, false)
}

/// `name`, or the raw identifier `r#name` where `name` is not accepted as a
/// plain identifier.
pub open spec fn escaped(name: Seq<char>, accepted: bool) -> Seq<char> {
    if accepted {
        name
    } else {
        "r#"@ + name
    }
}

fn lower_char(c: char) -> (r: char)
    ensures
        r == ascii_lower(c),
{
    if 'A' <= c && c <= 'Z' {
        ((c as u8) + 32) as char
    } else {
        c
    }
}

/// The snake case of a name: `OneTwo` becomes `one_two`, `ONETWO` becomes
/// `onetwo`, `endinG_` becomes `endin_g_`.
pub fn convert_to_snakecase(name: &str) -> (r: String)
    ensures
        r@ == snake_case(name@),
{
    let mut out = String::new();
    let mut after_lower = false;
    let n = name.unicode_len();
    let mut i: usize = 0;
    assert(name@.skip(0) =~= name@);
    assert(out@ + snake_from(name@.skip(0), after_lower) =~= snake_case(name@));
    while i < n
        invariant
            n == name@.len(),
            i <= n,
            out@ + snake_from(name@.skip(i as int), after_lower) == snake_case(name@),
        decreases n - i,
    {
        let c = name.get_char(i);
        let ghost rest = name@.skip(i as int);
        assert(rest[0] == c);
        assert(rest.drop_first() =~= name@.skip(i + 1));
        if c == '_' {
            push_char(&mut out, c);
            after_lower = false;
            assert(out@ + snake_from(name@.skip(i + 1), after_lower) =~= snake_case(name@));
        } else {
            let run = ('a' <= c && c <= 'z') || is_numeric(c);
            proof {
                let sep: Seq<char> = if after_lower && !run { seq!['_'] } else { Seq::empty() };
                assert(snake_from(rest, after_lower) == sep + seq![ascii_lower(c)] + snake_from(name@.skip(i + 1), run));
            }
            let ghost before = out@;
            if after_lower && !run {
                push_char(&mut out, '_');
            }
            push_char(&mut out, lower_char(c));
            after_lower = run;
            assert(out@ + snake_from(name@.skip(i + 1), after_lower) =~= snake_case(name@));
        }
        i = i + 1;
    }
    assert(name@.skip(n as int) =~= Seq::<char>::empty());
    assert(out@ =~= out@ + snake_from(name@.skip(n as int), after_lower));
    out
}

/// `name` as it is, or escaped as a raw identifier where `accepted` is false.
pub fn escape_unaccepted(name: String, accepted: bool) -> (r: String)
    ensures
        r@ == escaped(name@, accepted),
{
    if accepted {
        name
    } else {
        let raw = String::from_str("r#");
        raw.concat(name.as_str())
    }
}

/// The name itself where it may stand as an identifier, else its raw form:
/// `break` becomes `r#break`.
pub fn adjust_keyword_ident(name: String) -> (r: String)
    ensures
        r@ == escaped(name@, is_plain_ident(name@)),
{
    let accepted = parses_as_ident(name.as_str());
    escape_unaccepted(name, accepted)
}

/// The name of a generated constructor: snake case, then escaped if it is a
/// reserved word.
pub open spec fn method_name(name: Seq<char>) -> Seq<char> {
    escaped(snake_case(name), is_plain_ident(snake_case(name)))
}

pub fn normalize_method_name(name: &String) -> (r: String)
    ensures
        r@ == method_name(name@),
{
    let s = convert_to_snakecase(name.as_str());
    adjust_keyword_ident(s)
}

} // verus!
