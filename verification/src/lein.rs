//! The Lein name-coding procedure and its specification.

use crate::utils;
use crate::PhonicsEncoder;
use crate::PhonicsError;
use vstd::prelude::*;

verus! {

/// The upper-case counterpart of an ASCII lower-case letter; any other
/// character is left unchanged.
pub open spec fn upper_char(c: char) -> char {
    if 'a' <= c && c <= 'z' {
        (((c as u8) - 32) as char)
    } else {
        c
    }
}

/// Whether `c` is one of the letters "A"-"Z" that Lein knows.
pub open spec fn is_code_letter(c: char) -> bool {
    'A' <= c && c <= 'Z'
}

/// Whether `c` is one of the vowels and semivowels A, E, I, O, U, Y, W, H,
/// which contribute nothing to a Lein code.
pub open spec fn is_vowel_like(c: char) -> bool {
    c == 'A' || c == 'E' || c == 'I' || c == 'O' || c == 'U' || c == 'Y' || c == 'W' || c == 'H'
}

/// The digit class of a consonant: D and T map to '1'; M and N to '2'; L and
/// R to '3'; B, F, P and V to '4'; C, J, K, G, Q, S, X and Z to '5'.  Any
/// other character is left unchanged.
pub open spec fn digit_class(c: char) -> char {
    if c == 'D' || c == 'T' {
        '1'
    } else if c == 'M' || c == 'N' {
        '2'
    } else if c == 'L' || c == 'R' {
        '3'
    } else if c == 'B' || c == 'F' || c == 'P' || c == 'V' {
        '4'
    } else if c == 'C' || c == 'J' || c == 'K' || c == 'G' || c == 'Q' || c == 'S' || c == 'X'
        || c == 'Z' {
        '5'
    } else {
        c
    }
}

/// The input after case folding, with every character outside "A"-"Z"
/// removed: the letter sequence the Lein pipeline works on.
pub open spec fn normalized(s: Seq<char>) -> Seq<char>
    decreases s.len(),
{
    if s.len() == 0 {
        Seq::empty()
    } else {
        (if is_code_letter(upper_char(s[0])) {
            seq![upper_char(s[0])]
        } else {
            Seq::empty()
        }) + normalized(s.skip(1))
    }
}

/// Whether the input holds any character that is not an upper-case letter
/// after case folding; in clean mode such an input is rejected.
pub open spec fn contains_unknown(s: Seq<char>) -> bool {
    exists|k: int| 0 <= k < s.len() && !is_code_letter(upper_char(s[k]))
}

/// The characters of `s` with every vowel-like letter removed.
pub open spec fn keep_consonants(s: Seq<char>) -> Seq<char>
    decreases s.len(),
{
    if s.len() == 0 {
        Seq::empty()
    } else {
        (if is_vowel_like(s[0]) {
            Seq::empty()
        } else {
            seq![s[0]]
        }) + keep_consonants(s.skip(1))
    }
}

/// Each character of `s` replaced by its digit class.
pub open spec fn class_digits(s: Seq<char>) -> Seq<char> {
    s.map_values(|c: char| digit_class(c))
}

/// The digit sequence a letter sequence reduces to: vowel-like letters are
/// deleted, runs of consecutive duplicates are collapsed, and the surviving
/// consonants are replaced by their digit classes, in that order.
pub open spec fn reduced(s: Seq<char>) -> Seq<char> {
    class_digits(utils::squeeze_spec(keep_consonants(s), '0'))
}

/// A sequence of `n` padding zeros (empty if `n` is not positive).
pub open spec fn zero_pad(n: int) -> Seq<char> {
    if n >= 0 {
        Seq::new(n as nat, |i: int| '0')
    } else {
        Seq::empty()
    }
}

/// The code body right-padded with `max_len - 1` zeros and truncated to
/// `max_len` characters, exactly as the encoder formats it.
pub open spec fn pad_truncate(body: Seq<char>, max_len: int) -> Seq<char> {
    let padded = body + zero_pad(max_len - 1);
    if max_len <= padded.len() {
        padded.take(max_len)
    } else {
        padded
    }
}

/// The Lein code of an input, as a function of its characters and of the
/// configured maximum code length.  An input with no letters to keep yields
/// the empty code; otherwise the first letter is preserved, the remaining
/// letters are reduced to digit classes, and the result is padded and
/// truncated to `max_len` characters.  A result equal to the fixed
/// four-character all-zero code is replaced by the empty code; the
/// comparison is against that literal whatever `max_len` is.
pub open spec fn lein_code(s: Seq<char>, max_len: int) -> Seq<char> {
    let norm = normalized(s);
    if norm.len() == 0 {
        Seq::empty()
    } else {
        let padded = pad_truncate(seq![norm[0]] + reduced(norm.skip(1)), max_len);
        if padded == seq!['0', '0', '0', '0'] {
            Seq::empty()
        } else {
            padded
        }
    }
}

/// The vowels and semivowels, as the character set handed to
/// [`utils::transform_characters`] for deletion.
pub open spec fn vowel_like_letters() -> Seq<char> {
    seq!['A', 'E', 'I', 'O', 'U', 'Y', 'W', 'H']
}

/// The letters of digit class '1'.
pub open spec fn class_one_letters() -> Seq<char> {
    seq!['D', 'T']
}

/// The letters of digit class '2'.
pub open spec fn class_two_letters() -> Seq<char> {
    seq!['M', 'N']
}

/// The letters of digit class '3'.
pub open spec fn class_three_letters() -> Seq<char> {
    seq!['L', 'R']
}

/// The letters of digit class '4'.
pub open spec fn class_four_letters() -> Seq<char> {
    seq!['B', 'F', 'P', 'V']
}

/// The letters of digit class '5'.
pub open spec fn class_five_letters() -> Seq<char> {
    seq!['C', 'J', 'K', 'G', 'Q', 'S', 'X', 'Z']
}

/// Membership in the vowel-like letter set coincides with
/// [`is_vowel_like`].
proof fn lemma_vowel_set_contains(c: char)
    ensures
        vowel_like_letters().contains(c) <==> is_vowel_like(c),
{
    let s = vowel_like_letters();
    assert(s[0] == 'A' && s[1] == 'E' && s[2] == 'I' && s[3] == 'O' && s[4] == 'U' && s[5] == 'Y'
        && s[6] == 'W' && s[7] == 'H');
    if is_vowel_like(c) {
        assert(s.contains(c));
    }
}

/// Membership in each digit-class letter set coincides with the
/// corresponding branch of [`digit_class`].
proof fn lemma_class_contains(c: char)
    ensures
        class_one_letters().contains(c) <==> (c == 'D' || c == 'T'),
        class_two_letters().contains(c) <==> (c == 'M' || c == 'N'),
        class_three_letters().contains(c) <==> (c == 'L' || c == 'R'),
        class_four_letters().contains(c) <==> (c == 'B' || c == 'F' || c == 'P' || c == 'V'),
        class_five_letters().contains(c) <==> (c == 'C' || c == 'J' || c == 'K' || c == 'G' || c
            == 'Q' || c == 'S' || c == 'X' || c == 'Z'),
{
    let s1 = class_one_letters();
    assert(s1[0] == 'D' && s1[1] == 'T');
    if c == 'D' || c == 'T' {
        assert(s1.contains(c));
    }
    let s2 = class_two_letters();
    assert(s2[0] == 'M' && s2[1] == 'N');
    if c == 'M' || c == 'N' {
        assert(s2.contains(c));
    }
    let s3 = class_three_letters();
    assert(s3[0] == 'L' && s3[1] == 'R');
    if c == 'L' || c == 'R' {
        assert(s3.contains(c));
    }
    let s4 = class_four_letters();
    assert(s4[0] == 'B' && s4[1] == 'F' && s4[2] == 'P' && s4[3] == 'V');
    if c == 'B' || c == 'F' || c == 'P' || c == 'V' {
        assert(s4.contains(c));
    }
    let s5 = class_five_letters();
    assert(s5[0] == 'C' && s5[1] == 'J' && s5[2] == 'K' && s5[3] == 'G' && s5[4] == 'Q' && s5[5]
        == 'S' && s5[6] == 'X' && s5[7] == 'Z');
    if c == 'C' || c == 'J' || c == 'K' || c == 'G' || c == 'Q' || c == 'S' || c == 'X' || c == 'Z' {
        assert(s5.contains(c));
    }
}

/// Replacing every vowel-like letter by the empty string is exactly the
/// vowel deletion step of the reducer.
proof fn lemma_vowel_pass(s: Seq<char>)
    ensures
        utils::transform_spec(s, vowel_like_letters(), Seq::empty()) == keep_consonants(s),
    decreases s.len(),
{
    if s.len() > 0 {
        lemma_vowel_set_contains(s[0]);
        lemma_vowel_pass(s.skip(1));
        if is_vowel_like(s[0]) {
            assert(Seq::<char>::empty() + keep_consonants(s.skip(1)) =~= keep_consonants(s.skip(
                1,
            )));
        }
    }
}

/// A replacement pass whose replacement is a single character keeps the
/// length and acts on each position independently.
proof fn lemma_transform_single(s: Seq<char>, src: Seq<char>, d: char)
    ensures
        utils::transform_spec(s, src, seq![d]).len() == s.len(),
        forall|i: int|
            0 <= i < s.len() ==> #[trigger] utils::transform_spec(s, src, seq![d])[i] == (
            if src.contains(s[i]) {
                d
            } else {
                s[i]
            }),
    decreases s.len(),
{
    if s.len() > 0 {
        lemma_transform_single(s.skip(1), src, d);
        assert forall|i: int| 0 <= i < s.len() implies #[trigger] utils::transform_spec(
            s,
            src,
            seq![d],
        )[i] == (if src.contains(s[i]) {
            d
        } else {
            s[i]
        }) by {
            if i > 0 {
                assert(s.skip(1)[i - 1] == s[i]);
                assert(utils::transform_spec(s, src, seq![d])[i] == utils::transform_spec(
                    s.skip(1),
                    src,
                    seq![d],
                )[i - 1]);
            }
        }
    }
}

/// The five layered replacement passes, applied in their fixed order, give
/// the same result as replacing each character by its digit class at once:
/// the classes are disjoint, and a digit produced by an earlier pass matches
/// no letter of a later one.
proof fn lemma_digit_passes(s: Seq<char>)
    ensures
        utils::transform_spec(
            utils::transform_spec(
                utils::transform_spec(
                    utils::transform_spec(
                        utils::transform_spec(s, class_one_letters(), seq!['1']),
                        class_two_letters(),
                        seq!['2'],
                    ),
                    class_three_letters(),
                    seq!['3'],
                ),
                class_four_letters(),
                seq!['4'],
            ),
            class_five_letters(),
            seq!['5'],
        ) == class_digits(s),
{
    let t1 = utils::transform_spec(s, class_one_letters(), seq!['1']);
    let t2 = utils::transform_spec(t1, class_two_letters(), seq!['2']);
    let t3 = utils::transform_spec(t2, class_three_letters(), seq!['3']);
    let t4 = utils::transform_spec(t3, class_four_letters(), seq!['4']);
    let t5 = utils::transform_spec(t4, class_five_letters(), seq!['5']);
    lemma_transform_single(s, class_one_letters(), '1');
    lemma_transform_single(t1, class_two_letters(), '2');
    lemma_transform_single(t2, class_three_letters(), '3');
    lemma_transform_single(t3, class_four_letters(), '4');
    lemma_transform_single(t4, class_five_letters(), '5');
    assert forall|i: int| 0 <= i < s.len() implies t5[i] == digit_class(s[i]) by {
        let c0 = s[i];
        lemma_class_contains(c0);
        let c1 = if c0 == 'D' || c0 == 'T' {
            '1'
        } else {
            c0
        };
        lemma_class_contains(c1);
        let c2 = if c1 == 'M' || c1 == 'N' {
            '2'
        } else {
            c1
        };
        lemma_class_contains(c2);
        let c3 = if c2 == 'L' || c2 == 'R' {
            '3'
        } else {
            c2
        };
        lemma_class_contains(c3);
        let c4 = if c3 == 'B' || c3 == 'F' || c3 == 'P' || c3 == 'V' {
            '4'
        } else {
            c3
        };
        lemma_class_contains(c4);
    }
    assert(t5 =~= class_digits(s));
}

/// The Lein name coding procedure.
///
/// The Lein algorithm is only defined for inputs over the standard English
/// alphabet, that is, "A"-"Z".  Lower-case letters are folded to their
/// upper-case counterparts; every other character is unknown to Lein.  If
/// `clean` is `true`, an input holding an unknown character is rejected with
/// an error; if `clean` is `false`, unknown characters are silently removed.
/// The default value of `clean` is `false`.
///
/// # References
///
/// Billy T. Lynch and William L. Arends. "Selection of surname coding
/// procedure for the SRS record linkage system." United States
/// Department of Agriculture, Sample Survey Research Branch, Research
/// Division, Washington, 1977.
pub struct Lein {
    /// The Lein specification has a standard maximum length.  However, it may
    /// be reasonable to use either a shorter or longer length, depending on
    /// the application.  The default value for `max_code_len` is in
    /// [`Lein::MAX_CODE_LEN_DEFAULT`].
    pub max_code_len: usize,
    /// If `clean` is `true`, then `encode` will return
    /// [`PhonicsError::UnknownCharactersFound`] for an input with characters
    /// outside "A"-"Z" after case folding.  If `clean` is `false`, then
    /// unknown characters are ignored.  The default value is in
    /// [`Lein::CLEAN_DEFAULT`].
    pub clean: bool,
}

impl Lein {
    /// The default value of the maximum allowable return length.
    pub const MAX_CODE_LEN_DEFAULT: usize = 4;

    /// The default value on the handling of special characters.
    pub const CLEAN_DEFAULT: bool = false;

    /// Return a new encoder with the default configuration.
    pub fn new() -> (encoder: Lein)
        ensures
            encoder.max_code_len == Lein::MAX_CODE_LEN_DEFAULT,
            encoder.clean == Lein::CLEAN_DEFAULT,
    {
        Lein { max_code_len: Lein::MAX_CODE_LEN_DEFAULT, clean: Lein::CLEAN_DEFAULT }
    }

    /// Encode `source_string` as a Lein code.
    ///
    /// The encoder fails, with [`PhonicsError::UnknownCharactersFound`], if
    /// and only if `clean` is set and the case-folded input holds a character
    /// outside "A"-"Z".  On every other input it returns the code that
    /// [`lein_code`] describes: the empty code when no letter survives
    /// normalization, and otherwise the preserved first letter followed by
    /// the digit classes of the remaining consonants, padded with zeros and
    /// truncated to exactly `max_code_len` characters.  Both clauses pin the
    /// result completely, so encoding is deterministic: two calls with the
    /// same input and the same configuration return the same value.
    pub fn encode(&self, source_string: &str) -> (res: Result<String, PhonicsError>)
        ensures
            res is Err <==> (self.clean && contains_unknown(source_string@)),
            res matches Err(e) ==> e == PhonicsError::UnknownCharactersFound,
            res matches Ok(code) ==> code@ == lein_code(source_string@, self.max_code_len as int),
    {
        let ghost s = source_string@;
        let n = source_string.unicode_len();

        // Case folding and the test for unprocessable characters, fused with
        // the removal of every character outside "A"-"Z".
        let mut norm = String::new();
        let mut unknown = false;
        let mut i: usize = 0;
        proof {
            assert(s.skip(0) =~= s);
        }
        while i < n
            invariant
                0 <= i <= n,
                n == s.len(),
                s == source_string@,
                norm@ + normalized(s.skip(i as int)) == normalized(s),
                unknown == exists|k: int| 0 <= k < i && !is_code_letter(upper_char(s[k])),
            decreases n - i,
        {
            let c = source_string.get_char(i);
            let u = upper_char_exec(c);
            let ghost norm0 = norm@;
            proof {
                assert(s.skip(i as int).skip(1) =~= s.skip(i as int + 1));
                assert(s.skip(i as int)[0] == s[i as int]);
            }
            if is_code_letter_exec(u) {
                norm.push(u);
                proof {
                    assert(norm@ + normalized(s.skip(i as int + 1)) =~= norm0 + (seq![u]
                        + normalized(s.skip(i as int + 1))));
                }
            } else {
                unknown = true;
                proof {
                    assert(Seq::<char>::empty() + normalized(s.skip(i as int + 1)) =~= normalized(
                        s.skip(i as int + 1),
                    ));
                }
            }
            i += 1;
        }
        proof {
            assert(s.skip(n as int) =~= Seq::<char>::empty());
            assert(norm@ + Seq::<char>::empty() =~= norm@);
            assert(norm@ == normalized(s));
        }
        if unknown && self.clean {
            return Err(PhonicsError::UnknownCharactersFound);
        }
        // Check whether anything is left of the input.
        let norm_str = norm.as_str();
        if norm_str.is_empty() {
            return Ok(String::new());
        }
        // First character of key = first character of name.
        let first_char = norm_str.get_char(0);
        let rest0 = utils::strip_first_char(norm_str);

        // Delete vowels and Y, W, and H.
        let rest1 = utils::transform_characters(rest0.as_str(), "AEIOUYWH", "");

        // Remove duplicate consecutive characters.
        let rest2 = utils::remove_duplicate_characters(rest1.as_str());

        // D, T -> 1; M, N -> 2; L, R -> 3; B, F, P, V -> 4;
        // C, J, K, G, Q, S, X, Z -> 5.
        let rest3 = utils::transform_characters(rest2.as_str(), "DT", "1");
        let rest4 = utils::transform_characters(rest3.as_str(), "MN", "2");
        let rest5 = utils::transform_characters(rest4.as_str(), "LR", "3");
        let rest6 = utils::transform_characters(rest5.as_str(), "BFPV", "4");
        let rest7 = utils::transform_characters(rest6.as_str(), "CJKGQSXZ", "5");
        proof {
            reveal_strlit("AEIOUYWH");
            reveal_strlit("");
            reveal_strlit("DT");
            reveal_strlit("1");
            reveal_strlit("MN");
            reveal_strlit("2");
            reveal_strlit("LR");
            reveal_strlit("3");
            reveal_strlit("BFPV");
            reveal_strlit("4");
            reveal_strlit("CJKGQSXZ");
            reveal_strlit("5");
            assert("AEIOUYWH"@ =~= vowel_like_letters());
            assert(""@ =~= Seq::<char>::empty());
            assert("DT"@ =~= class_one_letters());
            assert("1"@ =~= seq!['1']);
            assert("MN"@ =~= class_two_letters());
            assert("2"@ =~= seq!['2']);
            assert("LR"@ =~= class_three_letters());
            assert("3"@ =~= seq!['3']);
            assert("BFPV"@ =~= class_four_letters());
            assert("4"@ =~= seq!['4']);
            assert("CJKGQSXZ"@ =~= class_five_letters());
            assert("5"@ =~= seq!['5']);
            lemma_vowel_pass(rest0@);
            lemma_digit_passes(rest2@);
            assert(rest7@ == reduced(norm@.skip(1)));
        }
        // Append word except for first character to first.
        let mut code = String::new();
        code.push(first_char);
        code.append(rest7.as_str());
        let ghost body = seq![normalized(s)[0]] + reduced(normalized(s).skip(1));
        proof {
            assert(code@ =~= body);
        }
        // Zero-pad to the requested length.
        let mut j: usize = 1;
        while j < self.max_code_len
            invariant
                1 <= j,
                j <= self.max_code_len || j == 1,
                code@ == body + zero_pad(j - 1),
            decreases self.max_code_len - j,
        {
            code.push('0');
            proof {
                assert(code@ =~= body + zero_pad(j as int));
            }
            j += 1;
        }
        // Truncate to the requested length.
        proof {
            if self.max_code_len >= 1 {
                assert(code@ == body + zero_pad(self.max_code_len - 1));
                assert(code@.len() == body.len() + (self.max_code_len - 1));
            } else {
                assert(code@ == body + zero_pad(0));
                assert(code@ =~= body);
            }
            assert(self.max_code_len <= code@.len());
        }
        let truncated = String::from_str(code.as_str().substring_char(0, self.max_code_len));
        proof {
            assert(truncated@ =~= pad_truncate(body, self.max_code_len as int));
        }
        // Handle a critical edge case: an all-zero code is reserved.
        let zero_code = String::from_str("0000");
        proof {
            reveal_strlit("0000");
            assert(zero_code@ =~= seq!['0', '0', '0', '0']);
        }
        if truncated == zero_code {
            Ok(String::new())
        } else {
            Ok(truncated)
        }
    }
}

/// Every character of a normalized input is one of the letters "A"-"Z".
proof fn lemma_normalized_letters(s: Seq<char>)
    ensures
        forall|i: int|
            0 <= i < normalized(s).len() ==> is_code_letter(#[trigger] normalized(s)[i]),
    decreases s.len(),
{
    if s.len() > 0 {
        lemma_normalized_letters(s.skip(1));
        let head: Seq<char> = if is_code_letter(upper_char(s[0])) {
            seq![upper_char(s[0])]
        } else {
            Seq::empty()
        };
        assert(normalized(s) == head + normalized(s.skip(1)));
        assert forall|i: int| 0 <= i < normalized(s).len() implies is_code_letter(
            #[trigger] normalized(s)[i],
        ) by {
            if i < head.len() {
                assert(normalized(s)[i] == head[0]);
            } else {
                assert(normalized(s)[i] == normalized(s.skip(1))[i - head.len()]);
            }
        }
    }
}

/// An input whose normalized letter sequence is empty yields the empty code,
/// whatever the configured maximum length.
pub proof fn lemma_no_letters_empty_code(s: Seq<char>, max_len: int)
    requires
        normalized(s).len() == 0,
    ensures
        lein_code(s, max_len) == Seq::<char>::empty(),
{
}

/// An input whose normalized letter sequence is not empty yields a code of
/// exactly the configured maximum length: the code starts with a letter, so
/// the reserved all-zero code can never be produced.
pub proof fn lemma_code_length(s: Seq<char>, max_len: int)
    requires
        1 <= max_len,
        normalized(s).len() > 0,
    ensures
        lein_code(s, max_len).len() == max_len,
{
    lemma_normalized_letters(s);
    let norm = normalized(s);
    let body = seq![norm[0]] + reduced(norm.skip(1));
    let padded_full = body + zero_pad(max_len - 1);
    assert(max_len <= padded_full.len());
    let padded = pad_truncate(body, max_len);
    assert(padded == padded_full.take(max_len));
    assert(padded[0] == norm[0]);
    assert(is_code_letter(norm[0]));
    if padded == seq!['0', '0', '0', '0'] {
        assert(padded[0] == '0');
        assert(false);
    }
}

/// Two inputs with equal case-folded characters normalize to the same
/// letter sequence.
proof fn lemma_normalized_pointwise(s1: Seq<char>, s2: Seq<char>)
    requires
        s1.len() == s2.len(),
        forall|i: int| 0 <= i < s1.len() ==> upper_char(#[trigger] s1[i]) == upper_char(s2[i]),
    ensures
        normalized(s1) == normalized(s2),
    decreases s1.len(),
{
    if s1.len() > 0 {
        assert forall|i: int| 0 <= i < s1.skip(1).len() implies upper_char(#[trigger] s1.skip(1)[i])
            == upper_char(s2.skip(1)[i]) by {
            assert(s1.skip(1)[i] == s1[i + 1]);
            assert(s2.skip(1)[i] == s2[i + 1]);
        }
        lemma_normalized_pointwise(s1.skip(1), s2.skip(1));
    }
}

/// Encoding is case-insensitive: two inputs that agree after case folding
/// yield the same code, and they agree on whether they hold an unknown
/// character.
pub proof fn lemma_case_insensitive(s1: Seq<char>, s2: Seq<char>, max_len: int)
    requires
        s1.map_values(|c: char| upper_char(c)) == s2.map_values(|c: char| upper_char(c)),
    ensures
        lein_code(s1, max_len) == lein_code(s2, max_len),
        contains_unknown(s1) == contains_unknown(s2),
{
    let u1 = s1.map_values(|c: char| upper_char(c));
    let u2 = s2.map_values(|c: char| upper_char(c));
    assert(u1.len() == s1.len() && u2.len() == s2.len());
    assert forall|i: int| 0 <= i < s1.len() implies upper_char(#[trigger] s1[i]) == upper_char(
        s2[i],
    ) by {
        assert(u1[i] == upper_char(s1[i]));
        assert(u2[i] == upper_char(s2[i]));
    }
    lemma_normalized_pointwise(s1, s2);
    if contains_unknown(s1) {
        let k = choose|k: int| 0 <= k < s1.len() && !is_code_letter(upper_char(s1[k]));
        assert(!is_code_letter(upper_char(s2[k])));
    }
    if contains_unknown(s2) {
        let k = choose|k: int| 0 <= k < s2.len() && !is_code_letter(upper_char(s2[k]));
        assert(!is_code_letter(upper_char(s1[k])));
    }
}

/// The executable counterpart of [`upper_char`].
fn upper_char_exec(c: char) -> (r: char)
    ensures
        r == upper_char(c),
{
    if 'a' <= c && c <= 'z' {
        (((c as u8) - 32) as char)
    } else {
        c
    }
}

/// The executable counterpart of [`is_code_letter`].
fn is_code_letter_exec(c: char) -> (r: bool)
    ensures
        r == is_code_letter(c),
{
    'A' <= c && c <= 'Z'
}

impl PhonicsEncoder for Lein {
    fn new() -> Lein {
        Lein::new()
    }

    fn encode(&self, word: &str) -> Result<String, PhonicsError> {
        Lein::encode(self, word)
    }
}

} // verus!
