//! The `HTML Format` envelope of the Windows clipboard.
//!
//! The clipboard expects a header of `key:value` lines, whose values give the byte offsets of
//! the HTML document and of the fragment in it, followed by the document.
use vstd::prelude::*;

verus! {

broadcast use vstd::string::group_string_axioms;

/// The bytes of an ASCII text.
pub open spec fn ascii_bytes(s: Seq<char>) -> Seq<u8> {
    Seq::new(s.len(), |i: int| s[i] as u8)
}

/// Appends the bytes of an ASCII text.
fn push_ascii(out: &mut Vec<u8>, s: &str)
    requires
        vstd::string::is_ascii(s),
    ensures
        final(out)@ == old(out)@ + ascii_bytes(s@),
{
    proof {
        vstd::string::is_ascii_spec_bytes(s);
    }
    out.extend_from_slice(s.as_bytes());
    proof {
        assert(final(out)@ =~= old(out)@ + ascii_bytes(s@));
    }
}

/// The decimal digits of `n`, most significant first.
pub open spec fn decimal(n: nat) -> Seq<u8>
    decreases n,
{
    if n < 10 {
        seq![(48 + n) as u8]
    } else {
        decimal(n / 10).push((48 + n % 10) as u8)
    }
}

/// The decimal digits of `n`, padded with leading zeros to at least `width` digits.
pub open spec fn zero_padded(n: nat, width: nat) -> Seq<u8> {
    let d = decimal(n);
    if d.len() < width {
        Seq::new((width - d.len()) as nat, |i: int| 48u8) + d
    } else {
        d
    }
}

fn push_decimal(out: &mut Vec<u8>, n: u64)
    ensures
        final(out)@ == old(out)@ + decimal(n as nat),
    decreases n,
{
    if n < 10 {
        out.push((48 + n) as u8);
    } else {
        push_decimal(out, n / 10);
        out.push((48 + n % 10) as u8);
    }
    proof {
        assert(final(out)@ =~= old(out)@ + decimal(n as nat));
    }
}

fn decimal_len(n: u64) -> (len: usize)
    ensures
        len == decimal(n as nat).len(),
        len <= 20,
    decreases n,
{
    proof {
        reveal_with_fuel(pow10, 21);
        assert(pow10(20) == 100000000000000000000nat);
        lemma_decimal_len_bound(n as nat, 20);
    }
    if n < 10 {
        1
    } else {
        decimal_len(n / 10) + 1
    }
}

/// Appends `n` in decimal, padded with leading zeros to at least `width` digits.
fn push_zero_padded(out: &mut Vec<u8>, n: u64, width: usize)
    ensures
        final(out)@ == old(out)@ + zero_padded(n as nat, width as nat),
{
    let len = decimal_len(n);
    if len < width {
        let mut i: usize = 0;
        let ghost start = out@;
        while i < width - len
            invariant
                i <= width - len,
                out@ == start + Seq::new(i as nat, |k: int| 48u8),
            decreases width - len - i,
        {
            out.push(48u8);
            i = i + 1;
            proof {
                assert(out@ =~= start + Seq::new(i as nat, |k: int| 48u8));
            }
        }
    }
    push_decimal(out, n);
    proof {
        assert(final(out)@ =~= old(out)@ + zero_padded(n as nat, width as nat));
    }
}

/// The number that the ASCII decimal digits `digits` write, most significant first.
pub open spec fn decimal_value(digits: Seq<u8>) -> int
    decreases digits.len(),
{
    if digits.len() == 0 {
        0
    } else {
        10 * decimal_value(digits.drop_last()) + (digits.last() - 48)
    }
}

/// Whether every byte of `s` is an ASCII decimal digit.
pub open spec fn all_digits(s: Seq<u8>) -> bool {
    forall|i: int| 0 <= i < s.len() ==> 48 <= #[trigger] s[i] <= 57
}

/// The digits of `n` are digits, and they read back as `n`.
proof fn lemma_decimal_reads_back(n: nat)
    ensures
        all_digits(decimal(n)),
        decimal_value(decimal(n)) == n,
    decreases n,
{
    let d = decimal(n);
    if n < 10 {
        assert(d.drop_last() =~= Seq::<u8>::empty());
        assert(decimal_value(Seq::<u8>::empty()) == 0);
        assert(d.last() == 48 + n);
    } else {
        lemma_decimal_reads_back(n / 10);
        assert(d.drop_last() =~= decimal(n / 10));
        assert(d.last() == 48 + n % 10);
        vstd::arithmetic::div_mod::lemma_fundamental_div_mod(n as int, 10);
        assert(decimal_value(d) == 10 * decimal_value(decimal(n / 10)) + (d.last() - 48));
    }
}

/// Leading zeros do not change the number that digits write.
proof fn lemma_leading_zeros(z: Seq<u8>, d: Seq<u8>)
    requires
        forall|i: int| 0 <= i < z.len() ==> #[trigger] z[i] == 48,
    ensures
        decimal_value(z + d) == decimal_value(d),
    decreases z.len() + d.len(),
{
    if d.len() == 0 {
        assert(z + d =~= z);
        if z.len() > 0 {
            assert(z.drop_last() + d =~= z.drop_last());
            lemma_leading_zeros(z.drop_last(), d);
        }
    } else {
        lemma_leading_zeros(z, d.drop_last());
        assert((z + d).drop_last() =~= z + d.drop_last());
    }
}

/// `n` padded to `width` digits takes exactly `width` bytes, all of them digits, and reads
/// back as `n`, provided `n` has at most `width` digits.
proof fn lemma_zero_padded_reads_back(n: nat, width: nat)
    requires
        decimal(n).len() <= width,
    ensures
        zero_padded(n, width).len() == width,
        all_digits(zero_padded(n, width)),
        decimal_value(zero_padded(n, width)) == n,
{
    lemma_decimal_reads_back(n);
    let d = decimal(n);
    if d.len() < width {
        let z = Seq::new((width - d.len()) as nat, |i: int| 48u8);
        lemma_leading_zeros(z, d);
        assert(zero_padded(n, width) == z + d);
        assert forall|i: int| 0 <= i < (z + d).len() implies 48 <= #[trigger] (z + d)[i] <= 57 by {
            if i >= z.len() {
                assert((z + d)[i] == d[i - z.len()]);
            }
        }
    }
}

/// Ten to the power of `k`.
pub open spec fn pow10(k: nat) -> nat
    decreases k,
{
    if k == 0 {
        1
    } else {
        10 * pow10((k - 1) as nat)
    }
}

/// A number below `10^k` has at most `k` decimal digits.
pub proof fn lemma_decimal_len_bound(n: nat, k: nat)
    requires
        k >= 1,
        n < pow10(k),
    ensures
        decimal(n).len() <= k,
    decreases n,
{
    if n >= 10 {
        assert(k >= 2) by {
            if k == 1 {
                assert(pow10(1) == 10 * pow10(0));
            }
        }
        assert(pow10(k) == 10 * pow10((k - 1) as nat));
        assert(n / 10 < pow10((k - 1) as nat));
        lemma_decimal_len_bound(n / 10, (k - 1) as nat);
    }
}

} // verus!

verus! {

/// The length of the header that `wrap_html` writes in front of the document, when each of
/// its four offsets has at most ten digits.
pub open spec fn html_header_len() -> int {
    ("Version:0.9"@.len() + "\r\nStartHTML:"@.len() + 10 + "\r\nEndHTML:"@.len() + 10
        + "\r\nStartFragment:"@.len() + 10 + "\r\nEndFragment:"@.len() + 10) as int
}

/// The text between the header and the fragment.
pub open spec fn html_prefix() -> Seq<char> {
    "\r\n<html>\r\n<body>\r\n<!--StartFragment-->\r\n"@
}

/// The text after the fragment.
pub open spec fn html_suffix() -> Seq<char> {
    "\r\n<!--EndFragment-->\r\n</body>\r\n</html>"@
}

/// The offset of the document: just after the line break that ends the header.
pub open spec fn html_start_html() -> int {
    html_header_len() + 2
}

/// The offset of the fragment.
pub open spec fn html_start_fragment() -> int {
    html_header_len() + html_prefix().len()
}

/// The offset just past the fragment.
pub open spec fn html_end_fragment(ctn: Seq<u8>) -> int {
    html_start_fragment() + ctn.len()
}

/// The offset just past the document.
pub open spec fn html_end_html(ctn: Seq<u8>) -> int {
    html_end_fragment(ctn) + html_suffix().len()
}

/// The clipboard's `HTML Format` for the fragment `ctn`.
pub open spec fn html_envelope(ctn: Seq<u8>) -> Seq<u8> {
    ascii_bytes("Version:0.9"@) + ascii_bytes("\r\nStartHTML:"@) + zero_padded(
        html_start_html() as nat,
        10,
    ) + ascii_bytes("\r\nEndHTML:"@) + zero_padded(html_end_html(ctn) as nat, 10) + ascii_bytes(
        "\r\nStartFragment:"@,
    ) + zero_padded(html_start_fragment() as nat, 10) + ascii_bytes("\r\nEndFragment:"@)
        + zero_padded(html_end_fragment(ctn) as nat, 10) + ascii_bytes(html_prefix()) + ctn
        + ascii_bytes(html_suffix())
}

proof fn lemma_literals()
    ensures
        "Version:0.9"@.len() == 11,
        "\r\nStartHTML:"@.len() == 12,
        "\r\nEndHTML:"@.len() == 10,
        "\r\nStartFragment:"@.len() == 16,
        "\r\nEndFragment:"@.len() == 14,
        html_prefix().len() == 40,
        html_suffix().len() == 38,
        vstd::string::is_ascii("Version:0.9"),
        vstd::string::is_ascii("\r\nStartHTML:"),
        vstd::string::is_ascii("\r\nEndHTML:"),
        vstd::string::is_ascii("\r\nStartFragment:"),
        vstd::string::is_ascii("\r\nEndFragment:"),
        vstd::string::is_ascii("\r\n<html>\r\n<body>\r\n<!--StartFragment-->\r\n"),
        vstd::string::is_ascii("\r\n<!--EndFragment-->\r\n</body>\r\n</html>"),
        html_header_len() == 103,
{
    reveal_strlit("Version:0.9");
    reveal_strlit("\r\nStartHTML:");
    reveal_strlit("\r\nEndHTML:");
    reveal_strlit("\r\nStartFragment:");
    reveal_strlit("\r\nEndFragment:");
    reveal_strlit("\r\n<html>\r\n<body>\r\n<!--StartFragment-->\r\n");
    reveal_strlit("\r\n<!--EndFragment-->\r\n</body>\r\n</html>");
}

/// The header of the `HTML Format` says where things are, in bytes: the ten digits after
/// `StartHTML:` give the offset of `<html>`, those after `EndHTML:` the length of the whole
/// text, and those after `StartFragment:` and `EndFragment:` enclose exactly the bytes of the
/// fragment, so that the two differ by its length in bytes. This holds as long as each offset
/// fits the ten digits that the header reserves for it.
pub proof fn lemma_html_header_values(ctn: Seq<u8>)
    requires
        ctn.len() + 181 < 10000000000,
    ensures
        ({
            let e = html_envelope(ctn);
            let start_html = decimal_value(e.subrange(23, 33));
            let end_html = decimal_value(e.subrange(43, 53));
            let start_fragment = decimal_value(e.subrange(69, 79));
            let end_fragment = decimal_value(e.subrange(93, 103));
            &&& e.subrange(0, 23) == ascii_bytes("Version:0.9"@) + ascii_bytes("\r\nStartHTML:"@)
            &&& e.subrange(33, 43) == ascii_bytes("\r\nEndHTML:"@)
            &&& e.subrange(53, 69) == ascii_bytes("\r\nStartFragment:"@)
            &&& e.subrange(79, 93) == ascii_bytes("\r\nEndFragment:"@)
            &&& all_digits(e.subrange(23, 33))
            &&& all_digits(e.subrange(43, 53))
            &&& all_digits(e.subrange(69, 79))
            &&& all_digits(e.subrange(93, 103))
            &&& 103 <= start_html && start_html + 6 <= end_html
            &&& e.subrange(start_html, start_html + 6) == ascii_bytes("<html>"@)
            &&& end_html == e.len()
            &&& start_html <= start_fragment <= end_fragment <= end_html
            &&& e.subrange(start_fragment, end_fragment) == ctn
            &&& end_fragment - start_fragment == ctn.len()
        }),
{
    lemma_literals();
    lemma_html_offsets(ctn);
    reveal_with_fuel(pow10, 11);
    assert(pow10(10) == 10000000000nat);
    let ends = html_end_html(ctn) as nat;
    let endf = html_end_fragment(ctn) as nat;
    lemma_decimal_len_bound(105, 10);
    lemma_decimal_len_bound(143, 10);
    lemma_decimal_len_bound(ends, 10);
    lemma_decimal_len_bound(endf, 10);
    lemma_zero_padded_reads_back(105, 10);
    lemma_zero_padded_reads_back(143, 10);
    lemma_zero_padded_reads_back(ends, 10);
    lemma_zero_padded_reads_back(endf, 10);
    let v = ascii_bytes("Version:0.9"@);
    let a = ascii_bytes("\r\nStartHTML:"@);
    let b = ascii_bytes("\r\nEndHTML:"@);
    let c = ascii_bytes("\r\nStartFragment:"@);
    let d = ascii_bytes("\r\nEndFragment:"@);
    let z1 = zero_padded(105, 10);
    let z2 = zero_padded(ends, 10);
    let z3 = zero_padded(143, 10);
    let z4 = zero_padded(endf, 10);
    let e = html_envelope(ctn);
    let rest = ascii_bytes(html_prefix()) + ctn + ascii_bytes(html_suffix());
    assert(e =~= v + a + z1 + b + z2 + c + z3 + d + z4 + rest);
    assert(e.subrange(0, 23) =~= v + a);
    assert(e.subrange(23, 33) =~= z1);
    assert(e.subrange(33, 43) =~= b);
    assert(e.subrange(43, 53) =~= z2);
    assert(e.subrange(53, 69) =~= c);
    assert(e.subrange(69, 79) =~= z3);
    assert(e.subrange(79, 93) =~= d);
    assert(e.subrange(93, 103) =~= z4);
}

/// Wraps an HTML fragment into the clipboard's `HTML Format`: a header whose `StartHTML`,
/// `EndHTML`, `StartFragment` and `EndFragment` values give byte offsets (as zero-padded
/// decimal numbers of at least ten digits), followed by a document that holds the fragment
/// between `StartFragment` and `EndFragment` comments.
pub fn wrap_html(ctn: &[u8]) -> (html: Vec<u8>)
    requires
        ctn@.len() + 181 <= usize::MAX,
    ensures
        html@ == html_envelope(ctn@),
        ctn@.len() + 181 < 10000000000 ==> {
            &&& decimal_value(html@.subrange(43, 53)) == html@.len()
            &&& decimal_value(html@.subrange(93, 103)) - decimal_value(html@.subrange(69, 79))
                == ctn@.len()
            &&& html@.subrange(
                decimal_value(html@.subrange(69, 79)),
                decimal_value(html@.subrange(93, 103)),
            ) == ctn@
        },
{
    proof {
        lemma_literals();
        if ctn@.len() + 181 < 10000000000 {
            lemma_html_header_values(ctn@);
        }
    }
    let h_version = "Version:0.9";
    let h_start_html = "\r\nStartHTML:";
    let h_end_html = "\r\nEndHTML:";
    let h_start_frag = "\r\nStartFragment:";
    let h_end_frag = "\r\nEndFragment:";
    let c_start_frag = "\r\n<html>\r\n<body>\r\n<!--StartFragment-->\r\n";
    let c_end_frag = "\r\n<!--EndFragment-->\r\n</body>\r\n</html>";
    let h_len = h_version.len() + h_start_html.len() + 10 + h_end_html.len() + 10
        + h_start_frag.len() + 10 + h_end_frag.len() + 10;
    let n_start_html = h_len + 2;
    let n_start_frag = h_len + c_start_frag.len();
    let n_end_frag = n_start_frag + ctn.len();
    let n_end_html = n_end_frag + c_end_frag.len();
    let mut out: Vec<u8> = Vec::new();
    push_ascii(&mut out, h_version);
    push_ascii(&mut out, h_start_html);
    push_zero_padded(&mut out, n_start_html as u64, 10);
    push_ascii(&mut out, h_end_html);
    push_zero_padded(&mut out, n_end_html as u64, 10);
    push_ascii(&mut out, h_start_frag);
    push_zero_padded(&mut out, n_start_frag as u64, 10);
    push_ascii(&mut out, h_end_frag);
    push_zero_padded(&mut out, n_end_frag as u64, 10);
    push_ascii(&mut out, c_start_frag);
    out.extend_from_slice(ctn);
    push_ascii(&mut out, c_end_frag);
    proof {
        assert(out@ =~= html_envelope(ctn@));
    }
    out
}

/// The offsets that the header of the `HTML Format` announces are right: the document starts
/// with `<html>` at `StartHTML`, the fragment lies between `StartFragment` and `EndFragment`,
/// and the whole text is `EndHTML` bytes long. This holds as long as each offset fits the
/// ten digits that the header reserves for it.
pub proof fn lemma_html_offsets(ctn: Seq<u8>)
    requires
        html_end_html(ctn) < 10000000000,
    ensures
        html_envelope(ctn).len() == html_end_html(ctn),
        html_envelope(ctn).subrange(html_start_fragment(), html_end_fragment(ctn)) == ctn,
        html_envelope(ctn).subrange(html_start_html(), html_start_html() + 6) == ascii_bytes(
            "<html>"@,
        ),
        html_envelope(ctn).subrange(html_end_fragment(ctn), html_end_html(ctn)) == ascii_bytes(
            html_suffix(),
        ),
{
    lemma_literals();
    reveal_strlit("<html>");
    reveal_strlit("\r\n<html>\r\n<body>\r\n<!--StartFragment-->\r\n");
    reveal_with_fuel(pow10, 11);
    assert(pow10(10) == 10000000000nat);
    let ends = html_end_html(ctn) as nat;
    let endf = html_end_fragment(ctn) as nat;
    lemma_decimal_len_bound(105, 10);
    lemma_decimal_len_bound(143, 10);
    lemma_decimal_len_bound(ends, 10);
    lemma_decimal_len_bound(endf, 10);
    let h = ascii_bytes("Version:0.9"@) + ascii_bytes("\r\nStartHTML:"@) + zero_padded(105, 10)
        + ascii_bytes("\r\nEndHTML:"@) + zero_padded(ends, 10) + ascii_bytes(
        "\r\nStartFragment:"@,
    ) + zero_padded(143, 10) + ascii_bytes("\r\nEndFragment:"@) + zero_padded(endf, 10);
    assert(h.len() == 103);
    let p = ascii_bytes(html_prefix());
    let e = html_envelope(ctn);
    assert(e == h + p + ctn + ascii_bytes(html_suffix()));
    let n = ctn.len() as int;
    assert(e.subrange(143, 143 + n) =~= ctn);
    assert(p.subrange(2, 8) =~= ascii_bytes("<html>"@));
    assert(e.subrange(105, 111) =~= p.subrange(2, 8));
    assert(e.subrange(143 + n, 143 + n + 38) =~= ascii_bytes(html_suffix()));
}

} // verus!
