//! Scalar formatting and splitting helpers of the instruction-layout
//! document model.

use vstd::prelude::*;

verus! {

use vstd::string::{StrSliceExecFns, StringExecFns, StringSliceAdditionalSpecFns};
use vstd::utf8::encode_utf8;

/// Why a string did not split into the expected number of fields.
#[derive(Clone, Copy, PartialEq, Eq, Structural, Debug)]
pub enum SeparatedError {
    NotEnough,
    TooMany,
}

/// The views of a sequence of owned strings.
pub open spec fn strings_view(s: Seq<String>) -> Seq<Seq<char>> {
    s.map_values(|p: String| p@)
}

proof fn lemma_strings_view_push(s: Seq<String>, p: String)
    ensures
        strings_view(s.push(p)) == strings_view(s).push(p@),
{
    assert(strings_view(s.push(p)) =~= strings_view(s).push(p@));
}

/// The parts of `s` split at every occurrence of `sep`: always at least one
/// part, the empty string splitting into one empty part.
pub open spec fn split_chars(s: Seq<char>, sep: char) -> Seq<Seq<char>>
    decreases s.len(),
{
    if s.len() == 0 {
        seq![Seq::<char>::empty()]
    } else {
        let rest = split_chars(s.drop_first(), sep);
        if s[0] == sep {
            seq![Seq::<char>::empty()] + rest
        } else {
            seq![seq![s[0]] + rest[0]] + rest.drop_first()
        }
    }
}

/// A split has at least one part.
pub proof fn lemma_split_chars_len(s: Seq<char>, sep: char)
    ensures
        split_chars(s, sep).len() >= 1,
    decreases s.len(),
{
    if s.len() > 0 {
        lemma_split_chars_len(s.drop_first(), sep);
    }
}

/// Appending one character to a string either opens a new empty part (the
/// separator) or extends the last part (anything else).
proof fn lemma_split_chars_extend(s: Seq<char>, sep: char, i: int)
    requires
        0 <= i < s.len(),
    ensures
        split_chars(s.take(i + 1), sep) == if s[i] == sep {
            split_chars(s.take(i), sep).push(Seq::<char>::empty())
        } else {
            let parts = split_chars(s.take(i), sep);
            parts.update(parts.len() - 1, parts.last().push(s[i]))
        },
    decreases i,
{
    lemma_split_chars_len(s.take(i), sep);
    lemma_split_chars_len(s.take(i + 1), sep);
    if i == 0 {
        assert(s.take(0) =~= Seq::<char>::empty());
        assert(s.take(1)[0] == s[0]);
        assert(s.take(1).drop_first() =~= Seq::<char>::empty());
        if s[0] == sep {
            assert(split_chars(s.take(1), sep) =~= split_chars(s.take(0), sep).push(
                Seq::<char>::empty(),
            ));
        } else {
            let parts = split_chars(s.take(0), sep);
            assert(split_chars(s.take(1), sep) =~= parts.update(
                parts.len() - 1,
                parts.last().push(s[0]),
            ));
        }
    } else {
        let t = s.drop_first();
        lemma_split_chars_extend(t, sep, i - 1);
        assert(s.take(i + 1)[0] == s[0]);
        assert(s.take(i)[0] == s[0]);
        assert(s.take(i + 1).drop_first() =~= t.take(i));
        assert(s.take(i).drop_first() =~= t.take(i - 1));
        assert(t[i - 1] == s[i]);
        lemma_split_chars_len(t.take(i - 1), sep);
        lemma_split_chars_len(t.take(i), sep);
        if s[i] == sep {
            assert(split_chars(s.take(i + 1), sep) =~= split_chars(s.take(i), sep).push(
                Seq::<char>::empty(),
            ));
        } else {
            let parts = split_chars(s.take(i), sep);
            assert(split_chars(s.take(i + 1), sep) =~= parts.update(
                parts.len() - 1,
                parts.last().push(s[i]),
            ));
        }
    }
}

/// Splits `string` at every occurrence of `sep` into its parts, left to
/// right.
pub fn split_all(string: &str, sep: char) -> (r: Vec<String>)
    ensures
        strings_view(r@) == split_chars(string@, sep),
{
    let n = string.unicode_len();
    let mut done: Vec<String> = Vec::new();
    let mut cur: String = String::new();
    let mut i: usize = 0;
    proof {
        assert(string@.take(0) =~= Seq::<char>::empty());
    }
    while i < n
        invariant
            i <= n,
            n == string@.len(),
            split_chars(string@.take(i as int), sep) == strings_view(done@).push(cur@),
        decreases n - i,
    {
        proof {
            lemma_split_chars_extend(string@, sep, i as int);
            lemma_split_chars_len(string@.take(i as int), sep);
        }
        let c = string.get_char(i);
        if c == sep {
            let ghost pre = done@;
            let ghost finished = cur@;
            done.push(cur);
            cur = String::new();
            proof {
                lemma_strings_view_push(pre, choose|p: String| p@ == finished);
                assert(strings_view(done@) =~= strings_view(pre).push(finished));
                assert(split_chars(string@.take(i + 1), sep) =~~= strings_view(done@).push(cur@));
            }
        } else {
            cur.append(string.substring_char(i, i + 1));
            proof {
                let parts = split_chars(string@.take(i as int), sep);
                assert(string@.subrange(i as int, i + 1) =~= seq![string@[i as int]]);
                assert(parts.update(parts.len() - 1, parts.last().push(string@[i as int]))
                    =~~= strings_view(done@).push(cur@));
            }
        }
        i = i + 1;
    }
    proof {
        assert(string@.take(i as int) =~= string@);
    }
    let ghost pre = done@;
    let ghost finished = cur@;
    done.push(cur);
    proof {
        assert(strings_view(done@) =~= strings_view(pre).push(finished));
        assert(strings_view(done@) =~~= split_chars(string@, sep));
    }
    done
}

/// Splits `string` at every occurrence of `sep` and demands exactly `N`
/// fields: fewer is [`SeparatedError::NotEnough`], more is
/// [`SeparatedError::TooMany`].
pub fn separated<const N: usize>(string: &str, sep: char) -> (r: Result<Vec<String>, SeparatedError>)
    ensures
        ({
            let parts = split_chars(string@, sep);
            match r {
                Ok(v) => {
                    &&& parts.len() == N
                    &&& v@.len() == N
                    &&& forall|j: int| 0 <= j < N ==> #[trigger] v@[j]@ == parts[j]
                },
                Err(SeparatedError::NotEnough) => parts.len() < N,
                Err(SeparatedError::TooMany) => parts.len() > N,
            }
        }),
{
    let done = split_all(string, sep);
    if done.len() < N {
        Err(SeparatedError::NotEnough)
    } else if done.len() > N {
        Err(SeparatedError::TooMany)
    } else {
        proof {
            assert(forall|j: int| 0 <= j < N ==> #[trigger] done@[j]@ == strings_view(done@)[j]);
        }
        Ok(done)
    }
}

/// The one of two strings whose encoding is the shorter, the first on a tie.
pub open spec fn shorter_spec(a: Seq<char>, b: Seq<char>) -> Seq<char> {
    if encode_utf8(a).len() <= encode_utf8(b).len() {
        a
    } else {
        b
    }
}

/// Of two rendered forms, the one taking fewer bytes; the first on a tie.
pub fn shorter(a: String, b: String) -> (r: String)
    ensures
        r@ == shorter_spec(a@, b@),
{
    let la = a.as_str().as_bytes().len();
    let lb = b.as_str().as_bytes().len();
    if la <= lb {
        a
    } else {
        b
    }
}

/// The plain decimal rendering of the single-precision value with the given
/// bit pattern.
pub uninterp spec fn f32_display(bits: u32) -> Seq<char>;

/// The upper-case scientific rendering of the single-precision value with
/// the given bit pattern.
pub uninterp spec fn f32_upper_exp(bits: u32) -> Seq<char>;

/// The decimal rendering, with exactly two fractional digits, of the
/// single-precision value with the given bit pattern.
pub uninterp spec fn f32_fixed2(bits: u32) -> Seq<char>;

/// Relies on the standard `Display` rendering of a single-precision value:
/// it depends on the value's bits alone.
#[verifier::external_body]
pub fn float_display(bits: u32) -> (r: String)
    ensures
        r@ == f32_display(bits),
{
    let v = bytemuck::cast::<[u32; 3], glam::Vec3>([bits; 3]).x;
    format!("{v}")
}

/// Relies on the standard `UpperExp` rendering of a single-precision value:
/// it depends on the value's bits alone.
#[verifier::external_body]
pub fn float_upper_exp(bits: u32) -> (r: String)
    ensures
        r@ == f32_upper_exp(bits),
{
    let v = bytemuck::cast::<[u32; 3], glam::Vec3>([bits; 3]).x;
    format!("{v:E}")
}

/// Relies on the standard `Display` rendering with precision two of a
/// single-precision value: it depends on the value's bits alone.
#[verifier::external_body]
pub fn float_fixed2(bits: u32) -> (r: String)
    ensures
        r@ == f32_fixed2(bits),
{
    let v = bytemuck::cast::<[u32; 3], glam::Vec3>([bits; 3]).x;
    format!("{v:.2}")
}

/// A scientific rendering with a single exponent digit gets a leading zero
/// in the exponent (`1E-1` becomes `1E-01`); anything else is unchanged.
pub open spec fn pad_exponent_spec(s: Seq<char>) -> Seq<char> {
    if s.len() >= 2 && s[s.len() - 2] == '-' {
        s.take(s.len() - 1) + seq!['0'] + seq![s.last()]
    } else {
        s
    }
}

/// Inserts a zero before a final lone exponent digit, as
/// [`pad_exponent_spec`] says.
pub fn pad_exponent(s: String) -> (r: String)
    ensures
        r@ == pad_exponent_spec(s@),
{
    let n = s.as_str().unicode_len();
    if n >= 2 && s.as_str().get_char(n - 2) == '-' {
        let head = s.as_str().substring_char(0, n - 1).to_owned();
        let r = head.concat("0").concat(s.as_str().substring_char(n - 1, n));
        proof {
            reveal_strlit("0");
            assert(r@ =~= pad_exponent_spec(s@));
        }
        r
    } else {
        s
    }
}

/// The serialized form of one coordinate: the shorter of its plain rendering
/// and its scientific rendering with a padded exponent.
pub open spec fn float_entry(bits: u32) -> Seq<char> {
    shorter_spec(f32_display(bits), pad_exponent_spec(f32_upper_exp(bits)))
}

/// Renders one coordinate as [`float_entry`] says.
pub fn render_float(bits: u32) -> (r: String)
    ensures
        r@ == float_entry(bits),
{
    shorter(float_display(bits), pad_exponent(float_upper_exp(bits)))
}

/// The serialized form of a coordinate list: the entries joined by single
/// spaces.
pub open spec fn spaces_spec(vals: Seq<u32>) -> Seq<char>
    decreases vals.len(),
{
    if vals.len() == 0 {
        Seq::<char>::empty()
    } else if vals.len() == 1 {
        float_entry(vals[0])
    } else {
        float_entry(vals[0]) + seq![' '] + spaces_spec(vals.drop_first())
    }
}

/// Renders a list of coordinate bit patterns joined by single spaces, as
/// [`spaces_spec`] says.
pub fn spaces(values: &Vec<u32>) -> (r: String)
    ensures
        r@ == spaces_spec(values@),
{
    let mut i: usize = values.len();
    let mut buf = String::new();
    proof {
        assert(values@.skip(values@.len() as int) =~= Seq::<u32>::empty());
    }
    while i > 0
        invariant
            i <= values@.len(),
            buf@ == spaces_spec(values@.skip(i as int)),
        decreases i,
    {
        i = i - 1;
        let piece = render_float(values[i]);
        proof {
            assert(values@.skip(i as int)[0] == values@[i as int]);
            assert(values@.skip(i as int).drop_first() =~= values@.skip(i + 1));
            reveal_strlit(" ");
        }
        if i + 1 == values.len() {
            buf = piece;
        } else {
            buf = piece.concat(" ").concat(buf.as_str());
            proof {
                assert(buf@ =~= spaces_spec(values@.skip(i as int)));
            }
        }
    }
    proof {
        assert(values@.skip(0) =~= values@);
    }
    buf
}

/// A decimal digit character.
pub open spec fn is_digit(c: char) -> bool {
    '0' <= c <= '9'
}

/// The value of a decimal digit character.
pub open spec fn digit_val(c: char) -> int {
    c as int - '0' as int
}

/// The digit character for a value below ten.
pub open spec fn digit_char(d: int) -> char {
    if d == 0 {
        '0'
    } else if d == 1 {
        '1'
    } else if d == 2 {
        '2'
    } else if d == 3 {
        '3'
    } else if d == 4 {
        '4'
    } else if d == 5 {
        '5'
    } else if d == 6 {
        '6'
    } else if d == 7 {
        '7'
    } else if d == 8 {
        '8'
    } else {
        '9'
    }
}

/// The decimal rendering of a natural number, without sign or padding.
pub open spec fn dec_nat(n: nat) -> Seq<char>
    decreases n,
{
    if n < 10 {
        seq![digit_char(n as int)]
    } else {
        dec_nat(n / 10).push(digit_char((n % 10) as int))
    }
}

/// The decimal rendering of an integer: a minus sign before the magnitude
/// for a negative one.
pub open spec fn dec_int(n: int) -> Seq<char> {
    if n < 0 {
        seq!['-'] + dec_nat((-n) as nat)
    } else {
        dec_nat(n as nat)
    }
}

/// The digit character for a value below ten, as a string slice.
fn digit_str(d: usize) -> (r: &'static str)
    requires
        d < 10,
    ensures
        r@ == seq![digit_char(d as int)],
{
    proof {
        reveal_strlit("0");
        reveal_strlit("1");
        reveal_strlit("2");
        reveal_strlit("3");
        reveal_strlit("4");
        reveal_strlit("5");
        reveal_strlit("6");
        reveal_strlit("7");
        reveal_strlit("8");
        reveal_strlit("9");
    }
    let r = if d == 0 {
        "0"
    } else if d == 1 {
        "1"
    } else if d == 2 {
        "2"
    } else if d == 3 {
        "3"
    } else if d == 4 {
        "4"
    } else if d == 5 {
        "5"
    } else if d == 6 {
        "6"
    } else if d == 7 {
        "7"
    } else if d == 8 {
        "8"
    } else {
        "9"
    };
    proof {
        assert(r@ =~= seq![digit_char(d as int)]);
    }
    r
}

/// Renders a natural number in decimal, as [`dec_nat`] says.
pub fn usize_to_string(n: usize) -> (r: String)
    ensures
        r@ == dec_nat(n as nat),
    decreases n,
{
    if n < 10 {
        digit_str(n).to_owned()
    } else {
        let r = usize_to_string(n / 10).concat(digit_str(n % 10));
        proof {
            assert(r@ =~= dec_nat(n as nat));
        }
        r
    }
}

/// Renders a signed index in decimal, as [`dec_int`] says.
pub fn isize_to_string(n: isize) -> (r: String)
    ensures
        r@ == dec_int(n as int),
{
    if n < 0 {
        let mag: usize = ((-(n + 1)) as usize) + 1;
        proof {
            assert(mag == -(n as int));
            reveal_strlit("-");
        }
        let r = "-".to_owned().concat(usize_to_string(mag).as_str());
        proof {
            assert(r@ =~= dec_int(n as int));
        }
        r
    } else {
        usize_to_string(n as usize)
    }
}

/// The integer a character sequence denotes in decimal: an optional minus
/// sign, then at least one digit; anything else denotes nothing.  Leading
/// zeroes are accepted.
pub open spec fn int_rep(s: Seq<char>) -> Option<int> {
    if s.len() >= 1 && s[0] == '-' {
        match nat_rep(s.drop_first()) {
            Some(v) => Some(-v),
            None => None,
        }
    } else {
        nat_rep(s)
    }
}

/// The natural number a nonempty all-digit character sequence denotes.
pub open spec fn nat_rep(s: Seq<char>) -> Option<int>
    decreases s.len(),
{
    if s.len() == 0 {
        None
    } else if !is_digit(s.last()) {
        None
    } else if s.len() == 1 {
        Some(digit_val(s.last()))
    } else {
        match nat_rep(s.drop_last()) {
            Some(v) => Some(v * 10 + digit_val(s.last())),
            None => None,
        }
    }
}

/// The value of a digit prefix grows with each digit.
proof fn lemma_nat_rep_extend(s: Seq<char>, i: int)
    requires
        0 <= i < s.len(),
    ensures
        nat_rep(s.take(i + 1)) == (match nat_rep(s.take(i)) {
            Some(v) => if is_digit(s[i]) {
                Some(v * 10 + digit_val(s[i]))
            } else {
                None::<int>
            },
            None => if i == 0 && is_digit(s[0]) {
                Some(digit_val(s[0]))
            } else {
                None::<int>
            },
        }),
{
    assert(s.take(i + 1).last() == s[i]);
    assert(s.take(i + 1).drop_last() =~= s.take(i));
}

/// A parsed natural number is never negative.
proof fn lemma_nat_rep_nonneg(s: Seq<char>)
    ensures
        nat_rep(s) matches Some(v) ==> v >= 0,
    decreases s.len(),
{
    if s.len() > 1 {
        lemma_nat_rep_nonneg(s.drop_last());
    }
}

/// Parses a nonempty all-digit sequence as a natural number, refusing one
/// whose value does not fit the result type.
pub fn parse_usize(s: &str) -> (r: Option<usize>)
    ensures
        match nat_rep(s@) {
            Some(v) => if v <= usize::MAX {
                r == Some(v as usize)
            } else {
                r is None
            },
            None => r is None,
        },
{
    let n = s.unicode_len();
    if n == 0 {
        return None;
    }
    let mut acc: usize = 0;
    let mut i: usize = 0;
    proof {
        assert(s@.take(0) =~= Seq::<char>::empty());
    }
    while i < n
        invariant
            i <= n,
            n == s@.len(),
            i > 0 ==> nat_rep(s@.take(i as int)) == Some(acc as int),
            i == 0 ==> acc == 0,
        decreases n - i,
    {
        proof {
            lemma_nat_rep_extend(s@, i as int);
            lemma_nat_rep_nonneg(s@.take(i as int));
        }
        let c = s.get_char(i);
        if !('0' <= c && c <= '9') {
            proof {
                lemma_nat_rep_prefix_none(s@, i as int);
            }
            return None;
        }
        let d = (c as u32 - '0' as u32) as usize;
        if acc > (usize::MAX - d) / 10 {
            proof {
                lemma_nat_rep_grows(s@, i + 1);
            }
            return None;
        }
        acc = acc * 10 + d;
        i = i + 1;
    }
    proof {
        assert(s@.take(i as int) =~= s@);
    }
    Some(acc)
}

/// Once a prefix fails to parse, the whole fails.
proof fn lemma_nat_rep_prefix_none(s: Seq<char>, i: int)
    requires
        0 <= i < s.len(),
        !is_digit(s[i]),
    ensures
        nat_rep(s) is None,
    decreases s.len() - i,
{
    if i == s.len() - 1 {
    } else {
        lemma_nat_rep_prefix_none(s.drop_last(), i);
    }
}

/// The value of a parse never shrinks as digits are appended, so a prefix
/// that exceeds the result type's range condemns the whole.
proof fn lemma_nat_rep_grows(s: Seq<char>, i: int)
    requires
        0 < i <= s.len(),
    ensures
        nat_rep(s) matches Some(v) ==> (match nat_rep(s.take(i)) {
            Some(w) => w <= v,
            None => false,
        }),
    decreases s.len() - i,
{
    if i == s.len() {
        assert(s.take(i) =~= s);
    } else {
        lemma_nat_rep_grows(s, i + 1);
        lemma_nat_rep_extend(s, i);
        lemma_nat_rep_nonneg(s.take(i));
    }
}

/// Parses a signed decimal index, refusing a value outside the result
/// type's range.
pub fn parse_isize(s: &str) -> (r: Option<isize>)
    ensures
        match int_rep(s@) {
            Some(v) => if isize::MIN <= v <= isize::MAX {
                r matches Some(x) && x as int == v
            } else {
                r is None
            },
            None => r is None,
        },
{
    let n = s.unicode_len();
    if n >= 1 && s.get_char(0) == '-' {
        let mag = match parse_usize(s.substring_char(1, n)) {
            Some(m) => m,
            None => {
                proof {
                    assert(s@.subrange(1, n as int) =~= s@.drop_first());
                    match nat_rep(s@.drop_first()) {
                        Some(w) => {
                            assert(w > usize::MAX);
                            assert(int_rep(s@) == Some(-w));
                            assert(-w < isize::MIN);
                        },
                        None => {
                            assert(int_rep(s@) is None);
                        },
                    }
                }
                return None;
            },
        };
        proof {
            assert(s@.subrange(1, n as int) =~= s@.drop_first());
            lemma_nat_rep_nonneg(s@.drop_first());
            assert(int_rep(s@) == Some(-(mag as int)));
        }
        if mag <= (isize::MAX as usize) {
            let r = -(mag as isize);
            proof {
                assert(r as int == -(mag as int));
            }
            Some(r)
        } else if mag == (isize::MAX as usize) + 1 {
            let r = (-((mag - 1) as isize)) - 1;
            proof {
                assert(r as int == -(mag as int));
            }
            Some(r)
        } else {
            proof {
                assert(-(mag as int) < isize::MIN);
            }
            None
        }
    } else {
        proof {
            lemma_nat_rep_nonneg(s@);
        }
        match parse_usize(s) {
            Some(v) => if v <= (isize::MAX as usize) {
                Some(v as isize)
            } else {
                None
            },
            None => None,
        }
    }
}

/// The parts of a split that hold at least one character.
pub open spec fn nonempty_parts(parts: Seq<Seq<char>>) -> Seq<Seq<char>> {
    parts.filter(|t: Seq<char>| t.len() > 0)
}

/// The space-separated fields of an attribute value: the nonempty parts of
/// its split at every space.
pub open spec fn space_tokens(s: Seq<char>) -> Seq<Seq<char>> {
    nonempty_parts(split_chars(s, ' '))
}

/// The space-separated fields of an attribute value, left to right.
pub fn space_token_vec(v: &str) -> (r: Vec<String>)
    ensures
        strings_view(r@) == space_tokens(v@),
{
    let parts = split_all(v, ' ');
    let mut out: Vec<String> = Vec::new();
    let mut k: usize = 0;
    proof {
        reveal(Seq::filter);
        assert(strings_view(parts@).take(0) =~= Seq::<Seq<char>>::empty());
        assert(strings_view(out@) =~= nonempty_parts(strings_view(parts@).take(0)));
    }
    while k < parts.len()
        invariant
            k <= parts@.len(),
            strings_view(out@) == nonempty_parts(strings_view(parts@).take(k as int)),
        decreases parts@.len() - k,
    {
        proof {
            reveal(Seq::filter);
            assert(strings_view(parts@).take(k + 1).drop_last() =~= strings_view(parts@).take(
                k as int,
            ));
            assert(strings_view(parts@).take(k + 1).last() == parts@[k as int]@);
        }
        if !parts[k].as_str().is_empty() {
            let ghost pre = out@;
            out.push(parts[k].clone());
            proof {
                lemma_strings_view_push(pre, parts@[k as int]);
                assert(strings_view(out@) =~= nonempty_parts(strings_view(parts@).take(k + 1)));
            }
        } else {
            proof {
                assert(strings_view(out@) =~= nonempty_parts(strings_view(parts@).take(k + 1)));
            }
        }
        k = k + 1;
    }
    proof {
        assert(strings_view(parts@).take(k as int) =~= strings_view(parts@));
    }
    out
}

/// The bit pattern the standard library parses a character sequence to as a
/// single-precision value, if it parses at all.
pub uninterp spec fn f32_from_str(s: Seq<char>) -> Option<u32>;

/// Relies on the standard `FromStr` parse of a single-precision value: the
/// outcome depends on the characters alone.
#[verifier::external_body]
pub fn parse_float(s: &str) -> (r: Option<u32>)
    ensures
        r == f32_from_str(s@),
{
    let v = match s.parse() {
        Ok(v) => glam::Vec3::splat(v),
        Err(_) => return None,
    };
    let bits: [u32; 3] = bytemuck::cast(v);
    Some(bits[0])
}


/// Why a resize-bar attribute value did not parse.
#[derive(Clone, Copy, PartialEq, Eq, Structural, Debug)]
pub enum BarListError {
    /// A field expected to be `True` or `False` was something else.
    InvalidBool,
    /// The value ended in the middle of a quadruplet.
    MissingField,
    /// A reference index was not a signed decimal number in range.
    InvalidIndex,
    /// An offset did not parse as a single-precision value.
    InvalidOffset,
}

/// The serialized form of a truth value in an attribute.
pub open spec fn bool_rendering(b: bool) -> Seq<char> {
    if b {
        "True"@
    } else {
        "False"@
    }
}

/// The truth value an attribute field denotes, accepting either
/// capitalization.
pub open spec fn bool_token(t: Seq<char>) -> Option<bool> {
    if t == "True"@ || t == "true"@ {
        Some(true)
    } else if t == "False"@ || t == "false"@ {
        Some(false)
    } else {
        None
    }
}

/// The serialized form of one resize bar: orientation, the two reference
/// indices, and the offset as the shorter of its plain rendering and its
/// two-digit rendering, separated by single spaces.
pub open spec fn bar_rendering(b: crate::instruction::page::ResizeBar) -> Seq<char> {
    bool_rendering(b.vertical) + seq![' '] + dec_int(b.ref_index_1 as int) + seq![' '] + dec_int(
        b.ref_index_2 as int,
    ) + seq![' '] + shorter_spec(f32_display(b.offset), f32_fixed2(b.offset))
}

/// The serialized form of a resize-bar list: the bars' forms joined by
/// single spaces.
pub open spec fn bars_rendering(bars: Seq<crate::instruction::page::ResizeBar>) -> Seq<char>
    decreases bars.len(),
{
    if bars.len() == 0 {
        Seq::<char>::empty()
    } else if bars.len() == 1 {
        bar_rendering(bars[0])
    } else {
        bar_rendering(bars[0]) + seq![' '] + bars_rendering(bars.drop_first())
    }
}

/// Renders one resize bar as [`bar_rendering`] says.
fn render_bar(b: &crate::instruction::page::ResizeBar) -> (r: String)
    ensures
        r@ == bar_rendering(*b),
{
    let vertical = if b.vertical {
        "True"
    } else {
        "False"
    };
    let offset = shorter(float_display(b.offset), float_fixed2(b.offset));
    let r = vertical
        .to_owned()
        .concat(" ")
        .concat(isize_to_string(b.ref_index_1).as_str())
        .concat(" ")
        .concat(isize_to_string(b.ref_index_2).as_str())
        .concat(" ")
        .concat(offset.as_str());
    proof {
        reveal_strlit(" ");
        assert(r@ =~= bar_rendering(*b));
    }
    r
}

/// Renders a resize-bar list as [`bars_rendering`] says.  An empty list
/// never reaches serialization: the document model skips the attribute
/// entirely when no bar is present.
pub fn serialize(list: &Vec<crate::instruction::page::ResizeBar>) -> (r: String)
    requires
        list@.len() >= 1,
    ensures
        r@ == bars_rendering(list@),
{
    let mut i: usize = list.len();
    let mut buf = String::new();
    proof {
        assert(list@.skip(list@.len() as int) =~= Seq::<crate::instruction::page::ResizeBar>::empty());
    }
    while i > 0
        invariant
            i <= list@.len(),
            buf@ == bars_rendering(list@.skip(i as int)),
        decreases i,
    {
        i = i - 1;
        let piece = render_bar(&list[i]);
        proof {
            assert(list@.skip(i as int)[0] == list@[i as int]);
            assert(list@.skip(i as int).drop_first() =~= list@.skip(i + 1));
            reveal_strlit(" ");
        }
        if i + 1 == list.len() {
            buf = piece;
        } else {
            buf = piece.concat(" ").concat(buf.as_str());
            proof {
                assert(buf@ =~= bars_rendering(list@.skip(i as int)));
            }
        }
    }
    proof {
        assert(list@.skip(0) =~= list@);
    }
    buf
}

/// What a sequence of attribute fields parses to: quadruplets of
/// orientation, two reference indices and an offset, or the first error in
/// field order.
pub open spec fn bars_parse(toks: Seq<Seq<char>>) -> Result<
    Seq<crate::instruction::page::ResizeBar>,
    BarListError,
>
    decreases toks.len(),
{
    if toks.len() == 0 {
        Ok(Seq::<crate::instruction::page::ResizeBar>::empty())
    } else {
        match bool_token(toks[0]) {
            None => Err(BarListError::InvalidBool),
            Some(vertical) => if toks.len() < 4 {
                Err(BarListError::MissingField)
            } else {
                match int_rep(toks[1]) {
                    None => Err(BarListError::InvalidIndex),
                    Some(i1) => if !(isize::MIN <= i1 <= isize::MAX) {
                        Err(BarListError::InvalidIndex)
                    } else {
                        match int_rep(toks[2]) {
                            None => Err(BarListError::InvalidIndex),
                            Some(i2) => if !(isize::MIN <= i2 <= isize::MAX) {
                                Err(BarListError::InvalidIndex)
                            } else {
                                match f32_from_str(toks[3]) {
                                    None => Err(BarListError::InvalidOffset),
                                    Some(offset) => match bars_parse(toks.skip(4)) {
                                        Err(e) => Err(e),
                                        Ok(rest) => Ok(
                                            seq![
                                                crate::instruction::page::ResizeBar {
                                                    vertical,
                                                    ref_index_1: i1 as isize,
                                                    ref_index_2: i2 as isize,
                                                    offset,
                                                },
                                            ] + rest,
                                        ),
                                    },
                                }
                            },
                        }
                    },
                }
            },
        }
    }
}

/// The truth value of one field, accepting either capitalization.
fn parse_bool_token(t: &str) -> (r: Option<bool>)
    ensures
        r == bool_token(t@),
{
    if crate::text::str_eq(t, "True") || crate::text::str_eq(t, "true") {
        Some(true)
    } else if crate::text::str_eq(t, "False") || crate::text::str_eq(t, "false") {
        Some(false)
    } else {
        None
    }
}

/// Parses a resize-bar attribute value: space-separated quadruplets of
/// orientation, two reference indices and an offset, as [`bars_parse`] over
/// the value's fields says.
#[verifier::rlimit(30)]
pub fn visit(v: &str) -> (r: Result<Vec<crate::instruction::page::ResizeBar>, BarListError>)
    ensures
        ({
            let parsed = bars_parse(space_tokens(v@));
            match r {
                Ok(bars) => parsed == Ok::<_, BarListError>(bars@),
                Err(e) => parsed == Err::<Seq<crate::instruction::page::ResizeBar>, _>(e),
            }
        }),
{
    let toks = space_token_vec(v);
    let ghost tokens = strings_view(toks@);
    let mut out: Vec<crate::instruction::page::ResizeBar> = Vec::new();
    let mut j: usize = 0;
    proof {
        assert(tokens.skip(0) =~= tokens);
    }
    while j < toks.len()
        invariant
            j <= toks@.len(),
            tokens == strings_view(toks@),
            tokens == space_tokens(v@),
            ({
                let whole = bars_parse(tokens);
                let rest = bars_parse(tokens.skip(j as int));
                match rest {
                    Ok(tail) => whole == Ok::<_, BarListError>(out@ + tail),
                    Err(e) => whole == Err::<Seq<crate::instruction::page::ResizeBar>, _>(e),
                }
            }),
        decreases toks@.len() - j,
    {
        proof {
            assert(tokens.skip(j as int)[0] == toks@[j as int]@);
        }
        let vertical = match parse_bool_token(toks[j].as_str()) {
            Some(b) => b,
            None => {
                return Err(BarListError::InvalidBool);
            },
        };
        if toks.len() - j < 4 {
            return Err(BarListError::MissingField);
        }
        proof {
            assert(tokens.skip(j as int)[1] == toks@[j + 1]@);
            assert(tokens.skip(j as int)[2] == toks@[j + 2]@);
            assert(tokens.skip(j as int)[3] == toks@[j + 3]@);
            assert(tokens.skip(j as int).skip(4) =~= tokens.skip(j + 4));
        }
        let ref_index_1 = match parse_isize(toks[j + 1].as_str()) {
            Some(i1) => i1,
            None => {
                return Err(BarListError::InvalidIndex);
            },
        };
        let ref_index_2 = match parse_isize(toks[j + 2].as_str()) {
            Some(i2) => i2,
            None => {
                return Err(BarListError::InvalidIndex);
            },
        };
        let offset = match parse_float(toks[j + 3].as_str()) {
            Some(o) => o,
            None => {
                return Err(BarListError::InvalidOffset);
            },
        };
        let bar = crate::instruction::page::ResizeBar { vertical, ref_index_1, ref_index_2, offset };
        let ghost pre_out = out@;
        out.push(bar);
        proof {
            match bars_parse(tokens.skip(j + 4)) {
                Ok(t4) => {
                    assert(pre_out + (seq![bar] + t4) =~= out@ + t4);
                },
                Err(e) => {},
            }
        }
        j = j + 4;
    }
    proof {
        assert(tokens.skip(j as int) =~= Seq::<Seq<char>>::empty());
        assert(out@ + Seq::<crate::instruction::page::ResizeBar>::empty() =~= out@);
    }
    Ok(out)
}

} // verus!
