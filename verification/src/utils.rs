//! Generic string-transform helpers shared by phonetic encoders, with the
//! specification functions that describe them.

use vstd::prelude::*;

verus! {

/// Relies on `String::push`: appends the given character to the end of the
/// string.
pub assume_specification[ String::push ](s: &mut String, ch: char)
    ensures
        final(s)@ == old(s)@.push(ch),
;

/// The characters of `s` with every occurrence of a character of `src`
/// replaced by the whole of `dst`, in order.
pub open spec fn transform_spec(s: Seq<char>, src: Seq<char>, dst: Seq<char>) -> Seq<char>
    decreases s.len(),
{
    if s.len() == 0 {
        Seq::empty()
    } else if src.contains(s[0]) {
        dst + transform_spec(s.skip(1), src, dst)
    } else {
        seq![s[0]] + transform_spec(s.skip(1), src, dst)
    }
}

/// The characters of `s` with every run of consecutive equal characters
/// collapsed to a single occurrence.  A leading run equal to `last` is
/// dropped entirely; the executable function starts from the sentinel `'0'`.
pub open spec fn squeeze_spec(s: Seq<char>, last: char) -> Seq<char>
    decreases s.len(),
{
    if s.len() == 0 {
        Seq::empty()
    } else if s[0] == last {
        squeeze_spec(s.skip(1), last)
    } else {
        seq![s[0]] + squeeze_spec(s.skip(1), s[0])
    }
}

/// Remove the first character of a string.
///
/// This function removes the first character of a string and returns the
/// remaining characters as a string.  An empty string stays empty.
pub fn strip_first_char(string: &str) -> (res: String)
    ensures
        string@.len() == 0 ==> res@ == Seq::<char>::empty(),
        string@.len() > 0 ==> res@ == string@.skip(1),
{
    let n = string.unicode_len();
    if n == 0 {
        String::new()
    } else {
        String::from_str(string.substring_char(1, n))
    }
}

/// Strip repeated characters.
///
/// This function removes duplicated consecutive characters: a run of
/// consecutive identical characters is replaced by a single instance, as many
/// phonetic spelling algorithms require.  The comparison starts from the
/// sentinel character `'0'`, so a leading run of `'0'` is removed as well.
pub fn remove_duplicate_characters(string: &str) -> (res: String)
    ensures
        res@ == squeeze_spec(string@, '0'),
{
    let mut return_string = String::new();
    let mut last_char: char = '0';
    let n = string.unicode_len();
    let mut i: usize = 0;
    proof {
        assert(string@.skip(0) =~= string@);
    }
    while i < n
        invariant
            0 <= i <= n,
            n == string@.len(),
            return_string@ + squeeze_spec(string@.skip(i as int), last_char) == squeeze_spec(
                string@,
                '0',
            ),
        decreases n - i,
    {
        let c = string.get_char(i);
        let ghost rs0 = return_string@;
        proof {
            assert(string@.skip(i as int).skip(1) =~= string@.skip(i as int + 1));
            assert(string@.skip(i as int)[0] == string@[i as int]);
        }
        if c != last_char {
            return_string.push(c);
            last_char = c;
            proof {
                assert(return_string@ + squeeze_spec(string@.skip(i as int + 1), c) =~= rs0 + (
                seq![c] + squeeze_spec(string@.skip(i as int + 1), c)));
            }
        }
        i += 1;
    }
    proof {
        assert(string@.skip(n as int) =~= Seq::<char>::empty());
        assert(return_string@ + Seq::<char>::empty() =~= return_string@);
    }
    return_string
}

/// Replace characters of a set by a replacement string.
///
/// Every character of `string` that occurs in `src` is replaced by the whole
/// of `dst`; all other characters are kept unchanged.
pub fn transform_characters(string: &str, src: &str, dst: &str) -> (res: String)
    ensures
        res@ == transform_spec(string@, src@, dst@),
{
    let mut return_string = String::new();
    let n = string.unicode_len();
    let mut i: usize = 0;
    proof {
        assert(string@.skip(0) =~= string@);
    }
    while i < n
        invariant
            0 <= i <= n,
            n == string@.len(),
            return_string@ + transform_spec(string@.skip(i as int), src@, dst@) == transform_spec(
                string@,
                src@,
                dst@,
            ),
        decreases n - i,
    {
        let c = string.get_char(i);
        let ghost rs0 = return_string@;
        let ghost tail = transform_spec(string@.skip(i as int + 1), src@, dst@);
        proof {
            assert(string@.skip(i as int).skip(1) =~= string@.skip(i as int + 1));
            assert(string@.skip(i as int)[0] == string@[i as int]);
        }
        if str_contains_char(src, c) {
            return_string.append(dst);
            proof {
                assert(return_string@ + tail =~= rs0 + (dst@ + tail));
            }
        } else {
            return_string.push(c);
            proof {
                assert(return_string@ + tail =~= rs0 + (seq![c] + tail));
            }
        }
        i += 1;
    }
    proof {
        assert(string@.skip(n as int) =~= Seq::<char>::empty());
        assert(return_string@ + Seq::<char>::empty() =~= return_string@);
    }
    return_string
}

/// Whether the character `c` occurs anywhere in `s`.
fn str_contains_char(s: &str, c: char) -> (found: bool)
    ensures
        found == s@.contains(c),
{
    let n = s.unicode_len();
    let mut i: usize = 0;
    while i < n
        invariant
            0 <= i <= n,
            n == s@.len(),
            forall|k: int| 0 <= k < i ==> s@[k] != c,
        decreases n - i,
    {
        if s.get_char(i) == c {
            return true;
        }
        i += 1;
    }
    false
}

} // verus!
