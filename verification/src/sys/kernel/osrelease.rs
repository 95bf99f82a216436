//! Kernel release numbers and the ordered version code derived from them.
//!
//! A release is written `major.minor.patch`, possibly followed by `-` and a
//! suffix of the distributor, which carries no number and is dropped before
//! anything is decoded.

use crate::grammar::{chars_of, find, split, split_at, texts, trim, trim_bounds, until};
use crate::grammar::{is_terminator, lemma_trim_back_concat, lemma_trim_front_concat};
use crate::grammar::{lemma_trim_front_keeps_end, lemma_until_concat, trim_back, trim_front};
use crate::grammar::{GrammarError, ReadError};
use crate::grammar::lemma_until_is;
use crate::number::{decimal_text, is_digit, lemma_decimal_text_decodes, write_number};
use crate::number::{decode_u16, decode_u8, u16_of, u8_of};
use vstd::string::StringExecFns;
use vstd::prelude::*;

verus! {

/// Largest patch level that the version code can tell apart.
pub const PATCH_CEILING: u16 = 255;

/// The patch level that enters the version code: capped at [`PATCH_CEILING`].
pub open spec fn saturated_patch(patch: u16) -> int {
    if patch > PATCH_CEILING {
        PATCH_CEILING as int
    } else {
        patch as int
    }
}

/// The version code of a release: one integer that orders releases by
/// major, then minor, then saturated patch level.
pub open spec fn version_code(major: u8, minor: u8, patch: u16) -> int {
    major as int * 65536 + minor as int * 256 + saturated_patch(patch)
}

/// Computes the kernel version code of `major.minor.patch`.
pub fn kernel_version(major: u8, minor: u8, patch: u16) -> (code: u32)
    ensures
        code == version_code(major, minor, patch),
{
    let low: u32 = if patch > PATCH_CEILING {
        255
    } else {
        patch as u32
    };
    let code: u32 = ((major as u32) << 16) | ((minor as u32) << 8) | low;
    assert(code == (major as u32) * 65536 + (minor as u32) * 256 + low) by (bit_vector)
        requires
            code == ((major as u32) << 16) | ((minor as u32) << 8) | low,
            low <= 255,
    ;
    code
}

/// A kernel release with its version code.
///
/// Two releases are equal, and ordered, by their version codes alone, so
/// patch levels from 255 up are not told apart.
#[derive(Debug, Clone, Copy)]
pub struct OsRelease {
    pub version_code: u32,
    pub major: u8,
    pub minor: u8,
    pub patch: u16,
}

/// The release `major.minor.patch`.
pub open spec fn release(major: u8, minor: u8, patch: u16) -> OsRelease {
    OsRelease { version_code: version_code(major, minor, patch) as u32, major, minor, patch }
}

/// What is decoded of a release string: the text up to the first `-`, once
/// the line terminators around the string are trimmed.
pub open spec fn release_core(s: Seq<char>) -> Seq<char> {
    trim(s).take(until(trim(s), '-') as int)
}

/// The release that `s` writes. Its first three components between dots
/// are the major, minor and patch numbers; further components are not read.
/// The first component that is no number of its width is the error.
pub open spec fn release_of(s: Seq<char>) -> Result<OsRelease, GrammarError> {
    let parts = split(release_core(s), '.');
    if parts.len() < 3 {
        Err(GrammarError::TooFewFields)
    } else if u8_of(parts[0]) is None {
        Err(GrammarError::NotNumeric(0))
    } else if u8_of(parts[1]) is None {
        Err(GrammarError::NotNumeric(1))
    } else if u16_of(parts[2]) is None {
        Err(GrammarError::NotNumeric(2))
    } else {
        Ok(release(u8_of(parts[0]).unwrap(), u8_of(parts[1]).unwrap(), u16_of(parts[2]).unwrap()))
    }
}

/// The text that writes a release: its three numbers with dots between.
pub open spec fn release_text(r: OsRelease) -> Seq<char> {
    decimal_text(r.major as nat) + seq!['.'] + decimal_text(r.minor as nat) + seq!['.']
        + decimal_text(r.patch as nat)
}

/// What a read of the release pseudo-file gives: `source` is its content,
/// or `None` where it could not be opened.
pub open spec fn current_release(source: Option<Seq<char>>) -> Result<OsRelease, ReadError> {
    match source {
        None => Err(ReadError::Unavailable),
        Some(s) => match release_of(s) {
            Ok(found) => Ok(found),
            Err(e) => Err(ReadError::Malformed(e)),
        },
    }
}

impl OsRelease {
    /// The version code is the one of the three numbers.
    pub open spec fn wf(&self) -> bool {
        self.version_code == version_code(self.major, self.minor, self.patch)
    }

    /// The release `major.minor.patch`.
    pub fn new(major: u8, minor: u8, patch: u16) -> (r: Self)
        ensures
            r == release(major, minor, patch),
            r.wf(),
    {
        OsRelease { version_code: kernel_version(major, minor, patch), major, minor, patch }
    }

    /// Decodes a release string such as `5.14.12-amd64`.
    pub fn from_str(s: &str) -> (r: Result<Self, GrammarError>)
        ensures
            r == release_of(s@),
            r matches Ok(found) ==> found.wf(),
    {
        let chars = chars_of(s);
        let (a, b) = trim_bounds(&chars, 0, chars.len());
        assert(chars@.subrange(0, chars@.len() as int) =~= chars@);
        let dash: usize = find(&chars, a, b, '-');
        proof {
            assert(chars@.subrange(a as int, dash as int) =~= release_core(s@));
        }
        let parts = split_at(&chars, a, dash, '.');
        if parts.len() < 3 {
            return Err(GrammarError::TooFewFields);
        }
        proof {
            assert(texts(parts@)[0] == parts@[0]@);
            assert(texts(parts@)[1] == parts@[1]@);
            assert(texts(parts@)[2] == parts@[2]@);
        }
        let major: u8 = match decode_u8(&parts[0]) {
            Some(n) => n,
            None => { return Err(GrammarError::NotNumeric(0)); },
        };
        let minor: u8 = match decode_u8(&parts[1]) {
            Some(n) => n,
            None => { return Err(GrammarError::NotNumeric(1)); },
        };
        let patch: u16 = match decode_u16(&parts[2]) {
            Some(n) => n,
            None => { return Err(GrammarError::NotNumeric(2)); },
        };
        Ok(OsRelease::new(major, minor, patch))
    }

    /// The release of the running kernel, from what was read of its
    /// pseudo-file: `source` is the content, or `None` where the file could
    /// not be opened.
    pub fn current(source: Option<&str>) -> (r: Result<Self, ReadError>)
        ensures
            r == current_release(
                match source {
                    Some(s) => Some(s@),
                    None => None,
                },
            ),
            r matches Ok(found) ==> found.wf(),
    {
        match source {
            None => Err(ReadError::Unavailable),
            Some(s) => match OsRelease::from_str(s) {
                Ok(found) => Ok(found),
                Err(e) => Err(ReadError::Malformed(e)),
            },
        }
    }
}

impl OsRelease {
    /// Writes the release: `major.minor.patch`.
    pub fn to_string(&self) -> (text: String)
        ensures
            text@ == release_text(*self),
    {
        proof {
            reveal_strlit(".");
        }
        let mut text = String::new();
        write_number(&mut text, self.major as u64);
        text.append(".");
        write_number(&mut text, self.minor as u64);
        text.append(".");
        write_number(&mut text, self.patch as u64);
        assert(text@ =~= release_text(*self));
        text
    }
}

impl Default for OsRelease {
    /// The release `0.0.0`.
    fn default() -> (r: Self)
        ensures
            r == release(0, 0, 0),
            r.wf(),
    {
        OsRelease { version_code: 0, major: 0, minor: 0, patch: 0 }
    }
}

/// Patch levels from the ceiling up give one version code.
pub proof fn lemma_patch_saturates(major: u8, minor: u8, patch1: u16, patch2: u16)
    requires
        patch1 >= PATCH_CEILING,
        patch2 >= PATCH_CEILING,
    ensures
        version_code(major, minor, patch1) == version_code(major, minor, patch2),
        release(major, minor, patch1).version_code == release(major, minor, patch2).version_code,
{
}

/// The numbers of one release come before those of another: by major, then
/// minor, then saturated patch level.
pub open spec fn precedes(
    major1: u8,
    minor1: u8,
    patch1: u16,
    major2: u8,
    minor2: u8,
    patch2: u16,
) -> bool {
    ||| major1 < major2
    ||| major1 == major2 && minor1 < minor2
    ||| major1 == major2 && minor1 == minor2 && saturated_patch(patch1) < saturated_patch(patch2)
}

/// The version code is strictly increasing in major, then minor, then
/// saturated patch level, and so orders releases the way their numbers do.
pub proof fn lemma_version_code_ordered(
    major1: u8,
    minor1: u8,
    patch1: u16,
    major2: u8,
    minor2: u8,
    patch2: u16,
)
    ensures
        precedes(major1, minor1, patch1, major2, minor2, patch2) <==> version_code(
            major1,
            minor1,
            patch1,
        ) < version_code(major2, minor2, patch2),
        version_code(major1, minor1, patch1) == version_code(major2, minor2, patch2) <==> major1
            == major2 && minor1 == minor2 && saturated_patch(patch1) == saturated_patch(patch2),
        0 <= version_code(major1, minor1, patch1) <= 0xff_ffff,
{
}

/// A suffix after `-` is dropped before anything is decoded: where `core`
/// holds no `-` and does not end in a line terminator, `core` followed by
/// `-` and any suffix writes the release that `core` writes.
pub proof fn lemma_suffix_is_dropped(core: Seq<char>, suffix: Seq<char>)
    requires
        forall|k: int| 0 <= k < core.len() ==> #[trigger] core[k] != '-',
        core.len() > 0 ==> !is_terminator(core.last()),
    ensures
        release_core(core + seq!['-'] + suffix) == release_core(core),
        release_of(core + seq!['-'] + suffix) == release_of(core),
{
    let whole = core + seq!['-'] + suffix;
    let kept = trim_front(core);
    lemma_trim_front_concat(core, '-', suffix);
    if core.len() > 0 {
        lemma_trim_front_keeps_end(core);
        let cut = choose|cut: int| 0 <= cut < core.len() && trim_front(core) == core.skip(cut);
        let body = core.drop_last();
        assert(core =~= body + seq![core.last()] + Seq::<char>::empty());
        lemma_trim_front_concat(body, core.last(), seq!['-']);
        assert(body + seq![core.last()] + seq!['-'] =~= core + seq!['-']);
        lemma_trim_front_concat(body, core.last(), Seq::<char>::empty());
        assert(trim_front(body + seq![core.last()]) + Seq::<char>::empty() =~= trim_front(
            body + seq![core.last()],
        ));
        assert(body + seq![core.last()] =~= core);
        assert(trim_front(core + seq!['-']) == kept + seq!['-']);
        assert(trim_back(kept) == kept);
        assert forall|k: int| 0 <= k < kept.len() implies #[trigger] kept[k] != '-' by {
            assert(kept[k] == core[cut + k]);
        }
    } else {
        assert(core + seq!['-'] =~= seq!['-']);
        assert(trim_front(seq!['-']) == seq!['-']);
        assert(kept =~= Seq::<char>::empty());
        assert(kept + seq!['-'] =~= seq!['-']);
    }
    assert(trim_front(whole) == kept + seq!['-'] + suffix);
    lemma_trim_back_concat(kept, '-', suffix);
    lemma_until_concat(kept, '-', trim_back(suffix));
    assert(trim(whole) == kept + seq!['-'] + trim_back(suffix));
    assert(trim(whole).take(kept.len() as int) =~= kept);
    assert(trim(core) == kept);
    assert(kept.take(kept.len() as int) =~= kept);
}

/// The pieces of two texts without `sep`, joined by `sep`, are the first
/// text and the pieces of what follows it.
proof fn lemma_split_first(head: Seq<char>, sep: char, rest: Seq<char>)
    requires
        forall|k: int| 0 <= k < head.len() ==> #[trigger] head[k] != sep,
    ensures
        split(head + seq![sep] + rest, sep) == seq![head] + split(rest, sep),
        split(head, sep) == seq![head],
{
    let whole = head + seq![sep] + rest;
    lemma_until_concat(head, sep, rest);
    assert(whole.take(head.len() as int) =~= head);
    assert(whole.skip(head.len() as int + 1) =~= rest);
}

/// What is written of a release is decoded to that release.
pub proof fn lemma_text_round_trip(r: OsRelease)
    requires
        r.wf(),
    ensures
        release_of(release_text(r)) == Ok::<OsRelease, GrammarError>(r),
{
    let a = decimal_text(r.major as nat);
    let b = decimal_text(r.minor as nat);
    let c = decimal_text(r.patch as nat);
    let text = release_text(r);
    lemma_decimal_text_decodes(r.major as nat);
    lemma_decimal_text_decodes(r.minor as nat);
    lemma_decimal_text_decodes(r.patch as nat);
    assert forall|k: int| 0 <= k < text.len() implies is_digit(#[trigger] text[k]) || text[k]
        == '.' by {
        if k < a.len() {
            assert(text[k] == a[k]);
        } else if a.len() < k < a.len() + 1 + b.len() {
            assert(text[k] == b[k - a.len() - 1]);
        } else if k > a.len() + 1 + b.len() {
            assert(text[k] == c[k - a.len() - b.len() - 2]);
        }
    }
    assert(is_digit(text[0]));
    assert(is_digit(text.last()));
    assert(trim_front(text) == text);
    assert(trim_back(text) == text);
    lemma_until_is(text, '-', text.len() as int);
    assert(text.take(text.len() as int) =~= text);
    assert(release_core(text) == text);
    assert(text =~= a + seq!['.'] + (b + seq!['.'] + c));
    assert forall|k: int| 0 <= k < a.len() implies #[trigger] a[k] != '.' by {
        assert(is_digit(a[k]));
    }
    assert forall|k: int| 0 <= k < b.len() implies #[trigger] b[k] != '.' by {
        assert(is_digit(b[k]));
    }
    assert forall|k: int| 0 <= k < c.len() implies #[trigger] c[k] != '.' by {
        assert(is_digit(c[k]));
    }
    lemma_split_first(a, '.', b + seq!['.'] + c);
    lemma_split_first(b, '.', c);
    lemma_split_first(c, '.', Seq::empty());
    let parts = split(text, '.');
    assert(parts =~= seq![a, b, c]);
}

} // verus!
