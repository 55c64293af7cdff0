//! Name resolution: derives stable, collision-resistant, syntactically safe
//! identifiers for generated declarations.  The same sanitize function is
//! used for scheme names, nested-type names and route path fragments, so
//! name collisions are deterministic and reproducible.

use vstd::prelude::*;

verus! {

/// What `char::is_alphanumeric` returns for a character: a fixed function
/// of the character alone, left unspecified here.
pub uninterp spec fn is_alphanumeric_char(c: char) -> bool;

/// Relies on `char::is_alphanumeric`: whether the character is in the
/// Unicode categories Alphabetic, Nd, Nl or No; a fixed classification
/// depending on the character alone.
#[verifier::external_body]
fn char_is_alphanumeric(c: char) -> (r: bool)
    ensures
        r == is_alphanumeric_char(c),
{
    c.is_alphanumeric()
}

/// Relies on `String::push`: appends the given character to the end of
/// the string.
#[verifier::external_body]
fn push_char(s: &mut String, c: char)
    ensures
        final(s)@ == old(s)@.push(c),
{
    s.push(c)
}

/// The sanitized form of a name: every non-alphanumeric character becomes
/// an underscore.
pub open spec fn sanitize_spec(s: Seq<char>) -> Seq<char> {
    s.map_values(|c: char| if is_alphanumeric_char(c) { c } else { '_' })
}

/// Replaces every character that is not alphanumeric with `_`.
pub fn sanitize(name: &str) -> (r: String)
    ensures
        r@ == sanitize_spec(name@),
{
    let n = name.unicode_len();
    let mut out = String::new();
    let mut i: usize = 0;
    while i < n
        invariant
            n == name@.len(),
            i <= n,
            out@ == sanitize_spec(name@.subrange(0, i as int)),
        decreases n - i,
    {
        let c = name.get_char(i);
        let kept = if char_is_alphanumeric(c) {
            c
        } else {
            '_'
        };
        push_char(&mut out, kept);
        i = i + 1;
        proof {
            assert(name@.subrange(0, i as int).drop_last() =~= name@.subrange(0, i - 1));
            assert(out@ =~= sanitize_spec(name@.subrange(0, i as int)));
        }
    }
    proof {
        assert(name@.subrange(0, n as int) =~= name@);
    }
    out
}

/// The property-name form of a name: the sanitized form, prefixed with a
/// fixed marker word when it would otherwise start with an underscore, so
/// it stays a legal exported identifier.
pub open spec fn create_property_name_spec(s: Seq<char>) -> Seq<char> {
    let t = sanitize_spec(s);
    if t.len() > 0 && t[0] == '_' {
        "$private"@ + t
    } else {
        t
    }
}

/// Sanitizes a name and guards a leading underscore with a marker prefix.
pub fn create_property_name(name: &str) -> (r: String)
    ensures
        r@ == create_property_name_spec(name@),
{
    let sanitized = sanitize(name);
    let starts_underscore = if sanitized.as_str().unicode_len() > 0 {
        sanitized.as_str().get_char(0) == '_'
    } else {
        false
    };
    if starts_underscore {
        let mut out = String::from_str("$private");
        out.append(sanitized.as_str());
        out
    } else {
        sanitized
    }
}

/// The identifier derived from a root name and a path of segments through
/// the IR: the segments joined to the root with underscores.
pub open spec fn joined_spec(root: Seq<char>, segs: Seq<Seq<char>>) -> Seq<char>
    decreases segs,
{
    if segs.len() == 0 {
        root
    } else {
        joined_spec(root, segs.drop_last()) + seq!['_'] + segs.last()
    }
}

/// Derives the unique identifier for a node reached from `root` through the
/// path `segments` (field names, variant indices, method and status tags):
/// the segments are joined to the root with underscores, the result is
/// sanitized, and a leading underscore is guarded with the marker prefix.
pub fn resolve_name(root: &str, segments: &Vec<String>) -> (r: String)
    ensures
        r@ == create_property_name_spec(
            joined_spec(root@, segments@.map_values(|s: String| s@)),
        ),
{
    let ghost all_segs = segments@.map_values(|s: String| s@);
    let mut joined = String::from_str(root);
    let mut i: usize = 0;
    while i < segments.len()
        invariant
            i <= segments@.len(),
            all_segs == segments@.map_values(|s: String| s@),
            joined@ == joined_spec(root@, all_segs.subrange(0, i as int)),
        decreases segments@.len() - i,
    {
        push_char(&mut joined, '_');
        joined.append(segments[i].as_str());
        i = i + 1;
        proof {
            assert(all_segs.subrange(0, i as int).drop_last() =~= all_segs.subrange(
                0,
                i - 1,
            ));
            assert(joined@ =~= joined_spec(root@, all_segs.subrange(0, i as int)));
        }
    }
    proof {
        assert(all_segs.subrange(0, all_segs.len() as int) =~= all_segs);
    }
    create_property_name(joined.as_str())
}

// ===========================================================================
// Decimal rendering of indices (used for positional variant names)
// ===========================================================================

/// The decimal digit character for `n` (0 to 9).
pub open spec fn dec_digit(n: int) -> char {
    if n == 0 {
        '0'
    } else if n == 1 {
        '1'
    } else if n == 2 {
        '2'
    } else if n == 3 {
        '3'
    } else if n == 4 {
        '4'
    } else if n == 5 {
        '5'
    } else if n == 6 {
        '6'
    } else if n == 7 {
        '7'
    } else if n == 8 {
        '8'
    } else {
        '9'
    }
}

/// The decimal representation of a non-negative integer.
pub open spec fn dec_str(n: int) -> Seq<char>
    decreases n,
{
    if n < 10 {
        seq![dec_digit(n)]
    } else {
        dec_str(n / 10).push(dec_digit(n % 10))
    }
}

fn dec_digit_exec(n: usize) -> (r: char)
    requires
        n < 10,
    ensures
        r == dec_digit(n as int),
{
    if n == 0 {
        '0'
    } else if n == 1 {
        '1'
    } else if n == 2 {
        '2'
    } else if n == 3 {
        '3'
    } else if n == 4 {
        '4'
    } else if n == 5 {
        '5'
    } else if n == 6 {
        '6'
    } else if n == 7 {
        '7'
    } else if n == 8 {
        '8'
    } else {
        '9'
    }
}

fn push_dec(s: &mut String, n: usize)
    ensures
        final(s)@ == old(s)@ + dec_str(n as int),
    decreases n,
{
    if n >= 10 {
        proof {
            assert(n / 10 < n) by (nonlinear_arith)
                requires
                    n >= 10,
            ;
        }
        push_dec(s, n / 10);
        push_char(s, dec_digit_exec(n % 10));
        proof {
            assert(final(s)@ =~= old(s)@ + dec_str(n as int));
        }
    } else {
        push_char(s, dec_digit_exec(n));
        proof {
            assert(final(s)@ =~= old(s)@ + dec_str(n as int));
        }
    }
}

/// Renders a non-negative index as its decimal string.
pub fn usize_to_string(n: usize) -> (r: String)
    ensures
        r@ == dec_str(n as int),
{
    let mut s = String::new();
    push_dec(&mut s, n);
    proof {
        assert(s@ =~= dec_str(n as int));
    }
    s
}

} // verus!
