//! The UEFI bootloader's one decision: the kernel command line it hands to
//! the kernel's EFI stub, from the text of `\EFI\WriteOnce\cmdline.txt`.
use vstd::prelude::*;
use vstd::utf8::{decode_utf8, valid_utf8};
use crate::initramfs::discover::utf8_text;
use crate::text::{chars_of, extend_str, slice, string_from};

verus! {

/// Where the kernel's EFI stub finds the initramfs, as `initrd=` names it.
pub const INITRD_ARG: &'static str = " initrd=\\EFI\\WriteOnce\\initramfs.img";

/// `s` without its trailing carriage returns, newlines and NULs.
pub open spec fn strip_cmdline_end(s: Seq<char>) -> Seq<char>
    decreases s.len(),
{
    if s.len() > 0 && (s.last() == '\r' || s.last() == '\n' || s.last() == '\0') {
        strip_cmdline_end(s.drop_last())
    } else {
        s
    }
}

/// `p` occurs in `s` at `i`.
pub open spec fn occurs_at(s: Seq<char>, p: Seq<char>, i: int) -> bool {
    0 <= i && i + p.len() <= s.len() && s.subrange(i, i + p.len()) == p
}

/// `p` occurs somewhere in `s`.
pub open spec fn contains_text(s: Seq<char>, p: Seq<char>) -> bool {
    exists|i: int| occurs_at(s, p, i)
}

/// The command line for the file's bytes: its text (nothing when it is not
/// UTF-8) without the trailing line ends and NULs, with the initramfs
/// appended unless the file already names an `initrd=`.
pub open spec fn kernel_cmdline_spec(bytes: Seq<u8>) -> Seq<char> {
    let text = if valid_utf8(bytes) { decode_utf8(bytes) } else { seq![] };
    let t = strip_cmdline_end(text);
    if contains_text(t, "initrd="@) { t } else { t + INITRD_ARG@ }
}

fn occurs_at_exec(s: &Vec<char>, p: &Vec<char>, i: usize) -> (b: bool)
    requires
        i <= s.len(),
    ensures
        b == occurs_at(s@, p@, i as int),
{
    if p.len() > s.len() - i {
        return false;
    }
    let mut k: usize = 0;
    while k < p.len()
        invariant
            k <= p.len(),
            i + p.len() <= s.len(),
            forall|m: int| 0 <= m < k ==> s@[i + m] == p@[m],
        decreases p.len() - k,
    {
        if s[i + k] != p[k] {
            assert(s@.subrange(i as int, i + p.len())[k as int] != p@[k as int]);
            return false;
        }
        k = k + 1;
    }
    assert(s@.subrange(i as int, i + p.len()) =~= p@);
    true
}

fn contains_exec(s: &Vec<char>, p: &Vec<char>) -> (b: bool)
    ensures
        b == contains_text(s@, p@),
{
    if p.len() > s.len() {
        return false;
    }
    let last = s.len() - p.len();
    let mut i: usize = 0;
    while i < last
        invariant
            i <= last,
            last + p.len() == s.len(),
            forall|j: int| 0 <= j < i ==> !occurs_at(s@, p@, j),
        decreases last - i,
    {
        if occurs_at_exec(s, p, i) {
            return true;
        }
        i = i + 1;
    }
    occurs_at_exec(s, p, last)
}

/// The kernel command line for the bytes of `cmdline.txt`.
pub fn kernel_cmdline(bytes: &[u8]) -> (r: String)
    ensures
        r@ == kernel_cmdline_spec(bytes@),
{
    let text = match utf8_text(bytes) {
        Some(t) => chars_of(t.as_str()),
        None => Vec::new(),
    };
    let mut k: usize = text.len();
    assert(text@.take(k as int) =~= text@);
    while k > 0 && (text[k - 1] == '\r' || text[k - 1] == '\n' || text[k - 1] == '\0')
        invariant
            k <= text.len(),
            strip_cmdline_end(text@) == strip_cmdline_end(text@.take(k as int)),
        decreases k,
    {
        assert(text@.take(k as int).drop_last() =~= text@.take(k - 1));
        k = k - 1;
    }
    let mut t = slice(&text, 0, k);
    assert(t@ =~= text@.take(k as int));
    proof {
        reveal_strlit("initrd=");
    }
    if !contains_exec(&t, &chars_of("initrd=")) {
        extend_str(&mut t, INITRD_ARG);
    }
    string_from(&t)
}

/// The UTF-16 code units of one character: itself below `0x10000`, else
/// its surrogate pair.
pub open spec fn utf16_units(c: char) -> Seq<u16> {
    let v = c as u32;
    if v < 0x10000 {
        seq![v as u16]
    } else {
        seq![(0xD800 + (v - 0x10000) / 0x400) as u16, (0xDC00 + (v - 0x10000) % 0x400) as u16]
    }
}

/// The UTF-16 code units of a text.
pub open spec fn utf16_of(s: Seq<char>) -> Seq<u16>
    decreases s.len(),
{
    if s.len() == 0 {
        seq![]
    } else {
        utf16_of(s.drop_last()) + utf16_units(s.last())
    }
}

/// The load options the EFI stub reads its command line from: the
/// command line in UTF-16, ended by a zero unit.
pub fn load_options_utf16(cmdline: &str) -> (r: Vec<u16>)
    ensures
        r@ == utf16_of(cmdline@).push(0u16),
{
    let cs = chars_of(cmdline);
    let mut out: Vec<u16> = Vec::new();
    let mut i: usize = 0;
    while i < cs.len()
        invariant
            i <= cs.len(),
            cs@ == cmdline@,
            out@ == utf16_of(cs@.take(i as int)),
        decreases cs.len() - i,
    {
        let c = cs[i];
        let ghost before = out@;
        assert(cs@.take(i + 1).drop_last() =~= cs@.take(i as int));
        assert(cs@.take(i + 1).last() == c);
        let v: u32 = c as u32;
        proof {
            vstd::utf8::char_is_scalar(c);
        }
        if v < 0x10000 {
            out.push(v as u16);
            assert(utf16_units(c) == seq![v as u16]);
        } else {
            let w: u32 = v - 0x10000;
            let hi: u16 = (0xD800 + w / 0x400) as u16;
            let lo: u16 = (0xDC00 + w % 0x400) as u16;
            assert(hi as int == 0xD800 + (v - 0x10000) / 0x400);
            assert(lo as int == 0xDC00 + (v - 0x10000) % 0x400);
            out.push(hi);
            out.push(lo);
            assert(utf16_units(c) == seq![hi, lo]);
        }
        assert(out@ =~= before + utf16_units(c));
        i = i + 1;
    }
    assert(cs@.take(cs.len() as int) =~= cs@);
    out.push(0u16);
    out
}

/// The command line always names an initramfs for the EFI stub to load.
pub proof fn lemma_cmdline_names_initrd(bytes: Seq<u8>)
    ensures
        contains_text(kernel_cmdline_spec(bytes), "initrd="@),
{
    let text = if valid_utf8(bytes) { decode_utf8(bytes) } else { seq![] };
    let t = strip_cmdline_end(text);
    if !contains_text(t, "initrd="@) {
        reveal_strlit("initrd=");
        reveal_strlit(" initrd=\\EFI\\WriteOnce\\initramfs.img");
        let r = t + INITRD_ARG@;
        assert(r.subrange(t.len() + 1int, t.len() + 8int) =~= "initrd="@);
        assert(occurs_at(r, "initrd="@, t.len() + 1int));
    }
}

} // verus!
