//! Verified string helpers: case folding and suffix stripping of process
//! names, substring search, and decimal formatting of integers.

use vstd::prelude::*;
use vstd::string::StrSliceExecFns;
use vstd::utf8::encode_utf8;
use vstd::utf8::is_ascii_chars;

verus! {

broadcast use vstd::slice::axiom_spec_len;

/// The Unicode lower-casing of a character sequence, as `str::to_lowercase`
/// computes it.  The full mapping would take pages to state; the name
/// stands for it, and the result depends on the characters alone.
pub uninterp spec fn lower_of(s: Seq<char>) -> Seq<char>;

/// ASCII lower-casing of one character.
pub open spec fn ascii_lower_char(c: char) -> char {
    if 'A' <= c && c <= 'Z' {
        ((c as u32 + 32) as u8) as char
    } else {
        c
    }
}

/// ASCII lower-casing of a character sequence.
pub open spec fn ascii_lower(s: Seq<char>) -> Seq<char> {
    s.map_values(|c: char| ascii_lower_char(c))
}

/// The case fold names are compared under: on all-ASCII input it is the
/// ASCII fold, which is what `str::to_lowercase` computes there; on any
/// other input it is the named Unicode fold.
pub open spec fn folded(s: Seq<char>) -> Seq<char> {
    if is_ascii_chars(s) {
        ascii_lower(s)
    } else {
        lower_of(s)
    }
}

/// Relies on `str::to_lowercase`: the Unicode lower-casing of the string.
/// The result depends on the characters alone; an empty string stays
/// empty, and on an all-ASCII string the result is the ASCII fold.
#[verifier::external_body]
pub(crate) fn lowercase(s: &str) -> (r: String)
    ensures
        r@ == lower_of(s@),
        s@.len() == 0 ==> r@.len() == 0,
        is_ascii_chars(s@) ==> r@ == ascii_lower(s@),
{
    s.to_lowercase()
}

/// The UTF-8 bytes of ".exe".
pub open spec fn exe_suffix() -> Seq<u8> {
    seq![46u8, 101u8, 120u8, 101u8]
}

/// Repeatedly strips a trailing ".exe" from a byte sequence.
pub open spec fn strip_exe(s: Seq<u8>) -> Seq<u8>
    decreases s.len(),
{
    if s.len() >= 4 && s.subrange(s.len() - 4, s.len() as int) == exe_suffix() {
        strip_exe(s.subrange(0, s.len() - 4))
    } else {
        s
    }
}

/// The normal form a process name is compared in: lower case, with every
/// trailing executable suffix stripped from the UTF-8 bytes.
pub open spec fn norm_name(s: Seq<char>) -> Seq<u8> {
    strip_exe(encode_utf8(folded(s)))
}

/// `n` occurs as a contiguous subsequence of `h`.
pub open spec fn has_sub(h: Seq<u8>, n: Seq<u8>) -> bool {
    exists|i: int| 0 <= i && i + n.len() <= h.len() && #[trigger] h.subrange(i, i + n.len()) == n
}

/// Repeatedly strips a trailing ".exe" from a byte vector.
pub fn strip_exe_exec(s: Vec<u8>) -> (r: Vec<u8>)
    ensures
        r@ == strip_exe(s@),
{
    let ghost s0: Seq<u8> = s@;
    let mut v: Vec<u8> = s;
    loop
        invariant
            strip_exe(v@) == strip_exe(s0),
        ensures
            strip_exe(v@) == strip_exe(s0) && strip_exe(v@) == v@,
        decreases v@.len(),
    {
        let l: usize = v.len();
        if l >= 4 && v[l - 4] == 46 && v[l - 3] == 101 && v[l - 2] == 120 && v[l - 1] == 101 {
            proof {
                assert(v@.subrange(v@.len() - 4, v@.len() as int) =~= exe_suffix());
            }
            v.truncate(l - 4);
        } else {
            proof {
                if v@.len() >= 4 {
                    assert(v@.subrange(v@.len() - 4, v@.len() as int) != exe_suffix()) by {
                        let sub = v@.subrange(v@.len() - 4, v@.len() as int);
                        assert(sub[0] == v@[v@.len() - 4]);
                        assert(sub[1] == v@[v@.len() - 3]);
                        assert(sub[2] == v@[v@.len() - 2]);
                        assert(sub[3] == v@[v@.len() - 1]);
                    }
                }
                assert(strip_exe(v@) == v@);
            }
            break;
        }
    }
    v
}

/// Law: for an all-ASCII name the comparison normal form is blind to
/// ASCII case changes and to an appended executable suffix.
pub proof fn lemma_norm_name_ascii(name: Seq<char>)
    requires
        is_ascii_chars(name),
    ensures
        norm_name(ascii_lower(name)) == norm_name(name),
        norm_name(name + ".exe"@) == norm_name(name),
{
    reveal_strlit(".exe");
    let low = ascii_lower(name);
    assert forall|i: int| 0 <= i < low.len() implies '\0' <= #[trigger] low[i] <= '\u{7f}' by {
        assert(low[i] == ascii_lower_char(name[i]));
    }
    assert(is_ascii_chars(low));
    assert forall|i: int| 0 <= i < low.len() implies #[trigger] ascii_lower(low)[i] == low[i] by {
        assert(ascii_lower(low)[i] == ascii_lower_char(ascii_lower_char(name[i])));
    }
    assert(ascii_lower(low) =~= low);
    assert(folded(low) == folded(name));

    let suffixed = name + ".exe"@;
    assert(is_ascii_chars(".exe"@)) by {
        assert(".exe"@[0] == '.' && ".exe"@[1] == 'e' && ".exe"@[2] == 'x' && ".exe"@[3] == 'e');
    }
    vstd::utf8::is_ascii_chars_concat(suffixed, name, ".exe"@);
    assert(is_ascii_chars(suffixed));
    assert forall|i: int| 0 <= i < suffixed.len() implies #[trigger] ascii_lower(suffixed)[i] == (
    low + ".exe"@)[i] by {
        if i < name.len() {
            assert(ascii_lower(suffixed)[i] == ascii_lower_char(name[i]));
        } else {
            assert(suffixed[i] == ".exe"@[i - name.len()]);
            assert(ascii_lower(suffixed)[i] == ascii_lower_char(".exe"@[i - name.len()]));
        }
    }
    assert(ascii_lower(suffixed) =~= low + ".exe"@);
    vstd::utf8::is_ascii_chars_concat(low + ".exe"@, low, ".exe"@);
    vstd::utf8::is_ascii_chars_encode_utf8(low + ".exe"@);
    vstd::utf8::is_ascii_chars_encode_utf8(low);
    let eb = encode_utf8(low + ".exe"@);
    assert forall|i: int| 0 <= i < eb.len() implies #[trigger] eb[i] == (encode_utf8(low)
        + exe_suffix())[i] by {
        assert(eb[i] == (low + ".exe"@)[i] as u8);
        if i < low.len() {
            assert(encode_utf8(low)[i] == low[i] as u8);
        } else {
            assert((low + ".exe"@)[i] == ".exe"@[i - low.len()]);
        }
    }
    assert(eb =~= encode_utf8(low) + exe_suffix());
    let whole = encode_utf8(low) + exe_suffix();
    assert(whole.subrange(whole.len() - 4, whole.len() as int) =~= exe_suffix());
    assert(whole.subrange(0, whole.len() - 4) =~= encode_utf8(low));
    assert(strip_exe(whole) == strip_exe(encode_utf8(low)));
}

/// Brings a process name into the comparison normal form of `norm_name`.
pub fn normalize_name(s: &str) -> (r: Vec<u8>)
    ensures
        r@ == norm_name(s@),
{
    let lowered: String = lowercase(s);
    proof {
        assert(lowered@ == folded(s@));
    }
    strip_exe_exec(lowered.as_str().as_bytes_vec())
}

/// Equality of two byte slices.
pub fn bytes_eq(a: &[u8], b: &[u8]) -> (r: bool)
    ensures
        r == (a@ == b@),
{
    if a.len() != b.len() {
        return false;
    }
    let mut i: usize = 0;
    while i < a.len()
        invariant
            a@.len() == b@.len(),
            i <= a@.len(),
            forall|j: int| 0 <= j < i ==> a@[j] == b@[j],
        decreases a@.len() - i,
    {
        if a[i] != b[i] {
            return false;
        }
        i = i + 1;
    }
    proof {
        assert(a@ =~= b@);
    }
    true
}

/// Whether `n` occurs at position `i` of `h`.
fn matches_at(h: &[u8], n: &[u8], i: usize) -> (r: bool)
    requires
        i + n@.len() <= h@.len(),
    ensures
        r == (h@.subrange(i as int, i + n@.len()) == n@),
{
    let mut j: usize = 0;
    while j < n.len()
        invariant
            i + n@.len() <= h@.len(),
            h.len() == h@.len(),
            n.len() == n@.len(),
            j <= n@.len(),
            forall|k: int| 0 <= k < j ==> h@[i + k] == n@[k],
        decreases n@.len() - j,
    {
        if h[i + j] != n[j] {
            proof {
                assert(h@.subrange(i as int, i + n@.len())[j as int] == h@[i + j]);
            }
            return false;
        }
        j = j + 1;
    }
    proof {
        assert(h@.subrange(i as int, i + n@.len()) =~= n@);
    }
    true
}

/// Whether `n` occurs as a contiguous subsequence of `h`.
pub fn contains_sub(h: &[u8], n: &[u8]) -> (r: bool)
    ensures
        r == has_sub(h@, n@),
{
    if n.len() > h.len() {
        return false;
    }
    if n.len() == 0 {
        proof {
            assert(has_sub(h@, n@)) by {
                assert(h@.subrange(0, 0 + n@.len() as int) =~= n@);
            }
        }
        return true;
    }
    let mut i: usize = 0;
    while i <= h.len() - n.len()
        invariant
            1 <= n@.len() <= h@.len(),
            h.len() == h@.len(),
            n.len() == n@.len(),
            i <= h@.len() - n@.len() + 1,
            forall|k: int| 0 <= k < i ==> #[trigger] h@.subrange(k, k + n@.len()) != n@,
        decreases h@.len() - i,
    {
        if matches_at(h, n, i) {
            return true;
        }
        i = i + 1;
    }
    false
}

/// The decimal digit character of one digit value.
pub open spec fn digit_char(d: nat) -> char {
    if d == 0 {
        '0'
    } else if d == 1 {
        '1'
    } else if d == 2 {
        '2'
    } else if d == 3 {
        '3'
    } else if d == 4 {
        '4'
    } else if d == 5 {
        '5'
    } else if d == 6 {
        '6'
    } else if d == 7 {
        '7'
    } else if d == 8 {
        '8'
    } else {
        '9'
    }
}

/// The decimal representation of a natural number, without sign or
/// leading zeros (a single zero for 0).
pub open spec fn dec_str(n: nat) -> Seq<char>
    decreases n,
{
    if n < 10 {
        seq![digit_char(n)]
    } else {
        dec_str(n / 10).push(digit_char(n % 10))
    }
}

/// The one-character string of one digit value.
fn digit_str(d: u32) -> (r: &'static str)
    requires
        d < 10,
    ensures
        r@ == seq![digit_char(d as nat)],
{
    proof {
        reveal_strlit("0");
        reveal_strlit("1");
        reveal_strlit("2");
        reveal_strlit("3");
        reveal_strlit("4");
        reveal_strlit("5");
        reveal_strlit("6");
        reveal_strlit("7");
        reveal_strlit("8");
        reveal_strlit("9");
    }
    let r: &'static str = if d == 0 {
        "0"
    } else if d == 1 {
        "1"
    } else if d == 2 {
        "2"
    } else if d == 3 {
        "3"
    } else if d == 4 {
        "4"
    } else if d == 5 {
        "5"
    } else if d == 6 {
        "6"
    } else if d == 7 {
        "7"
    } else if d == 8 {
        "8"
    } else {
        "9"
    };
    proof {
        assert(r@ =~= seq![digit_char(d as nat)]);
    }
    r
}

/// Formats a `u32` in decimal.
pub fn u32_to_string(n: u32) -> (s: String)
    ensures
        s@ == dec_str(n as nat),
{
    let mut m: u32 = n;
    let mut s: String = String::new();
    proof {
        assert(dec_str(n as nat) =~= dec_str(n as nat) + s@);
    }
    loop
        invariant_except_break
            dec_str(n as nat) == dec_str(m as nat) + s@,
        ensures
            s@ == dec_str(n as nat),
        decreases m,
    {
        let ghost m0: nat = m as nat;
        let d: u32 = m % 10;
        let digit: &'static str = digit_str(d);
        let ghost old_s: Seq<char> = s@;
        s = String::from_str(digit).concat(s.as_str());
        m = m / 10;
        proof {
            if m == 0 {
                assert(dec_str(n as nat) =~= s@) by {
                    assert(dec_str(m0) == seq![digit_char(m0)]);
                    assert(dec_str(n as nat) == dec_str(m0) + old_s);
                    assert(dec_str(m0) + old_s =~= seq![digit_char(d as nat)] + old_s);
                }
            } else {
                assert(dec_str(n as nat) =~= dec_str(m as nat) + s@) by {
                    assert(dec_str(m0) == dec_str(m0 / 10).push(digit_char(m0 % 10)));
                    assert(m as nat == m0 / 10 && d as nat == m0 % 10);
                    assert(dec_str(m0 / 10).push(digit_char(m0 % 10)) + old_s =~= dec_str(
                        m0 / 10,
                    ) + (seq![digit_char(m0 % 10)] + old_s));
                }
            }
        }
        if m == 0 {
            break;
        }
    }
    s
}

} // verus!
