//! The header patcher and the Ethereum-family contract variant.
//!
//! An Ethereum-style contract is assembled as a deploy header followed by
//! the contract body. Three 2-byte big-endian fields inside the header are
//! self-referential: they hold the header's own length (where the body
//! starts in memory) and, twice, the body's length. Each field is marked
//! by its own hex sentinel and patched in place, in a fixed order, before
//! header and body are concatenated.

use vstd::prelude::*;

use crate::codec::be16_at;
use crate::codec::u16_be_bytes;
use crate::config::Metadata;
use crate::config::PlaceholderConfig;
use crate::error::Error;
use crate::hex::decode_hex;
use crate::hex::hex_bytes;
use crate::hex::valid_hex;
use crate::locator::count_matches;
use crate::locator::lemma_count_pos_exists;
use crate::locator::lemma_unique_count;
use crate::locator::locate;
use crate::locator::match_index;
use crate::locator::matches_at;
use crate::locator::Placeholder;
use vstd::pervasive::VecAdditionalExecFns;
use vstd::slice::slice_to_vec;

verus! {

/// The sentinel bytes of the "start of contract when loading into memory"
/// header field.
pub open spec fn start_marker() -> Seq<u8> {
    seq![0x10u8, 0x01u8]
}

/// The sentinel bytes of the "end of contract when loading into memory"
/// header field.
pub open spec fn end_marker() -> Seq<u8> {
    seq![0x20u8, 0x02u8]
}

/// The sentinel bytes of the "length of contract when returning for
/// execution" header field.
pub open spec fn length_marker() -> Seq<u8> {
    seq![0x30u8, 0x03u8]
}

/// Name of the first header field.
pub open spec fn start_field_name() -> Seq<char> {
    "start of contract when loading into memory"@
}

/// Name of the second header field.
pub open spec fn end_field_name() -> Seq<char> {
    "end of contract when loading into memory"@
}

/// Name of the third header field.
pub open spec fn length_field_name() -> Seq<char> {
    "length of contract when returning for execution"@
}

/// One header field can be patched: its sentinel occurs exactly once and
/// the value fits in 2 bytes.
pub open spec fn patch_step_ok(h: Seq<u8>, pattern: Seq<u8>, value: int) -> bool {
    count_matches(h, pattern) == 1 && 0 <= value <= 0xFFFF
}

/// The header with one field patched: the 2-byte big-endian encoding of
/// `value` written over the sentinel's occurrence.
pub open spec fn patched(h: Seq<u8>, pattern: Seq<u8>, value: int) -> Seq<u8> {
    let i = match_index(h, pattern);
    h.update(i, u16_be_bytes(value)[0]).update(i + 1, u16_be_bytes(value)[1])
}

/// The error one failed field patch reports, under the field's name: not
/// found or ambiguous from the locator, otherwise the value overflowed its
/// 2-byte width.
pub open spec fn step_err(
    h: Seq<u8>,
    pattern: Seq<u8>,
    field: Seq<char>,
    value: int,
    e: Error,
) -> bool {
    if count_matches(h, pattern) == 0 {
        e matches Error::PlaceholderNotFound { name } && name@ == field
    } else if count_matches(h, pattern) >= 2 {
        e matches Error::AmbiguousPlaceholder { name, occurrences } && name@ == field
            && occurrences == count_matches(h, pattern)
    } else {
        &&& value > 0xFFFF
        &&& e matches Error::IntegerOverflow { field: f, value: v } && f@ == field && v == value
    }
}

/// All three header fields can be patched, each in the header as the
/// previous patches left it.
pub open spec fn patch_all_ok(h0: Seq<u8>, body_len: int) -> bool {
    let hlen = h0.len() as int;
    let h1 = patched(h0, start_marker(), hlen);
    let h2 = patched(h1, end_marker(), body_len);
    &&& patch_step_ok(h0, start_marker(), hlen)
    &&& patch_step_ok(h1, end_marker(), body_len)
    &&& patch_step_ok(h2, length_marker(), body_len)
}

/// The fully patched header: header length into the start field, body
/// length into the end and length fields, in that order.
pub open spec fn patch_all(h0: Seq<u8>, body_len: int) -> Seq<u8> {
    let hlen = h0.len() as int;
    let h1 = patched(h0, start_marker(), hlen);
    let h2 = patched(h1, end_marker(), body_len);
    patched(h2, length_marker(), body_len)
}

/// The header as the whole patch leaves it: every field up to the first
/// failing one is patched, and a failing field's bytes are never touched
/// — in particular, no truncated value is ever written.
pub open spec fn patch_progress(h0: Seq<u8>, body_len: int) -> Seq<u8> {
    let hlen = h0.len() as int;
    if !patch_step_ok(h0, start_marker(), hlen) {
        h0
    } else {
        let h1 = patched(h0, start_marker(), hlen);
        if !patch_step_ok(h1, end_marker(), body_len) {
            h1
        } else {
            let h2 = patched(h1, end_marker(), body_len);
            if !patch_step_ok(h2, length_marker(), body_len) {
                h2
            } else {
                patched(h2, length_marker(), body_len)
            }
        }
    }
}

/// The error the whole header patch reports: the first field whose patch
/// fails, with that field's name attached.
pub open spec fn patch_all_err(h0: Seq<u8>, body_len: int, e: Error) -> bool {
    let hlen = h0.len() as int;
    if !patch_step_ok(h0, start_marker(), hlen) {
        step_err(h0, start_marker(), start_field_name(), hlen, e)
    } else {
        let h1 = patched(h0, start_marker(), hlen);
        if !patch_step_ok(h1, end_marker(), body_len) {
            step_err(h1, end_marker(), end_field_name(), body_len, e)
        } else {
            let h2 = patched(h1, end_marker(), body_len);
            &&& !patch_step_ok(h2, length_marker(), body_len)
            &&& step_err(h2, length_marker(), length_field_name(), body_len, e)
        }
    }
}

/// The three header sentinels, written as the hex text they stand in the
/// templates as, decode to their marker bytes.
proof fn lemma_marker_bytes()
    ensures
        valid_hex("1001"@) && hex_bytes("1001"@) == start_marker(),
        valid_hex("2002"@) && hex_bytes("2002"@) == end_marker(),
        valid_hex("3003"@) && hex_bytes("3003"@) == length_marker(),
{
    reveal_strlit("1001");
    reveal_strlit("2002");
    reveal_strlit("3003");
    assert forall|i: int| 0 <= i < "1001"@.len() implies is_hex_digit_at("1001"@, i) by {
        lemma_hex_digit_cases("1001"@, i);
    }
    assert forall|i: int| 0 <= i < "2002"@.len() implies is_hex_digit_at("2002"@, i) by {
        lemma_hex_digit_cases("2002"@, i);
    }
    assert forall|i: int| 0 <= i < "3003"@.len() implies is_hex_digit_at("3003"@, i) by {
        lemma_hex_digit_cases("3003"@, i);
    }
    assert(hex_bytes("1001"@) =~= start_marker());
    assert(hex_bytes("2002"@) =~= end_marker());
    assert(hex_bytes("3003"@) =~= length_marker());
}

/// Helper trigger shape for `lemma_marker_bytes`.
spec fn is_hex_digit_at(s: Seq<char>, i: int) -> bool {
    crate::hex::is_hex_digit(s[i])
}

/// Each character of a four-digit sentinel text is a hex digit.
proof fn lemma_hex_digit_cases(s: Seq<char>, i: int)
    requires
        s.len() == 4,
        0 <= i < 4,
        forall|j: int| 0 <= j < 4 ==> s[j] == '0' || s[j] == '1' || s[j] == '2' || s[j] == '3',
    ensures
        is_hex_digit_at(s, i),
{
    assert(s[i] == '0' || s[i] == '1' || s[i] == '2' || s[i] == '3');
}

/// Where the start-of-contract field sits in the unpatched header.
pub open spec fn start_pos(h0: Seq<u8>) -> int {
    match_index(h0, start_marker())
}

/// Where the end-of-contract field sits, in the header as the first patch
/// left it.
pub open spec fn end_pos(h0: Seq<u8>) -> int {
    match_index(patched(h0, start_marker(), h0.len() as int), end_marker())
}

/// Where the length-of-contract field sits, in the header as the first
/// two patches left it.
pub open spec fn length_pos(h0: Seq<u8>, body_len: int) -> int {
    match_index(
        patched(patched(h0, start_marker(), h0.len() as int), end_marker(), body_len),
        length_marker(),
    )
}

/// Two 2-byte field positions do not overlap.
pub open spec fn fields_disjoint(a: int, b: int) -> bool {
    a + 2 <= b || b + 2 <= a
}

/// A field position of a patchable step is in bounds, and patching keeps
/// the buffer's length while rewriting exactly the field's two bytes.
proof fn lemma_patched_shape(h: Seq<u8>, pattern: Seq<u8>, value: int)
    requires
        pattern.len() == 2,
        count_matches(h, pattern) == 1,
        0 <= value <= 0xFFFF,
    ensures
        ({
            let i = match_index(h, pattern);
            &&& 0 <= i
            &&& i + 2 <= h.len()
            &&& patched(h, pattern, value).len() == h.len()
            &&& be16_at(patched(h, pattern, value), i) == value
            &&& forall|t: int|
                0 <= t < h.len() && t != i && t != i + 1 ==> patched(h, pattern, value)[t] == h[t]
        }),
{
    lemma_count_pos_exists(h, pattern);
    let i = match_index(h, pattern);
    assert(matches_at(h, pattern, i));
    assert(256 * (value / 256) + value % 256 == value);
}

/// After a successful header patch over non-overlapping fields, the
/// start-of-contract field decodes (big-endian) to the header's own
/// length, both body fields decode to the body's length, and the header's
/// length is unchanged.
pub proof fn lemma_patched_fields_decode(h0: Seq<u8>, body_len: int)
    requires
        patch_all_ok(h0, body_len),
        fields_disjoint(start_pos(h0), end_pos(h0)),
        fields_disjoint(start_pos(h0), length_pos(h0, body_len)),
        fields_disjoint(end_pos(h0), length_pos(h0, body_len)),
    ensures
        patch_all(h0, body_len).len() == h0.len(),
        be16_at(patch_all(h0, body_len), start_pos(h0)) == h0.len(),
        be16_at(patch_all(h0, body_len), end_pos(h0)) == body_len,
        be16_at(patch_all(h0, body_len), length_pos(h0, body_len)) == body_len,
{
    let hlen = h0.len() as int;
    let h1 = patched(h0, start_marker(), hlen);
    let h2 = patched(h1, end_marker(), body_len);
    lemma_patched_shape(h0, start_marker(), hlen);
    lemma_patched_shape(h1, end_marker(), body_len);
    lemma_patched_shape(h2, length_marker(), body_len);
}

/// A body longer than 65535 bytes cannot be patched in: its length does
/// not fit the 2-byte field, so the patch as a whole is refused.
pub proof fn lemma_patch_overflow(h0: Seq<u8>, body_len: int)
    requires
        body_len > 0xFFFF,
    ensures
        !patch_all_ok(h0, body_len),
{
}

/// When the oversized body is the first thing wrong — the start field
/// patched cleanly and the end field's sentinel is unique — the reported
/// error is the overflow itself, naming the end field and the length that
/// did not fit.
pub proof fn lemma_patch_overflow_error(h0: Seq<u8>, body_len: int, e: Error)
    requires
        body_len > 0xFFFF,
        patch_step_ok(h0, start_marker(), h0.len() as int),
        count_matches(patched(h0, start_marker(), h0.len() as int), end_marker()) == 1,
        patch_all_err(h0, body_len, e),
    ensures
        e matches Error::IntegerOverflow { field, value } && field@ == end_field_name() && value
            == body_len,
{
}

/// A compiled Ethereum-family contract: its final bytes (patched header
/// followed by body) and the placeholder table it was configured with.
pub struct EthereumContract {
    bytes: Vec<u8>,
    placeholder_config: PlaceholderConfig,
}

impl EthereumContract {
    /// The contract's final bytes.
    pub closed spec fn spec_bytes(&self) -> Seq<u8> {
        self.bytes@
    }

    /// The contract's placeholder table.
    pub closed spec fn spec_config(&self) -> PlaceholderConfig {
        self.placeholder_config
    }

    /// The contract's configuration is well formed.
    pub open spec fn wf(&self) -> bool {
        self.spec_config().wf()
    }

    /// Patch one 2-byte big-endian header field in place.
    ///
    /// The field is located by its own hex sentinel in the header as it
    /// currently stands; the value must fit in 2 bytes or the patch fails
    /// with an overflow error rather than writing truncated bytes.
    pub fn replace_offset_parameter_in_header(
        replace_pattern: &str,
        name: &str,
        value: usize,
        header: &mut Vec<u8>,
    ) -> (r: Result<(), Error>)
        requires
            valid_hex(replace_pattern@),
            hex_bytes(replace_pattern@).len() == 2,
        ensures
            final(header)@.len() == old(header)@.len(),
            ({
                let pat = hex_bytes(replace_pattern@);
                let h0 = old(header)@;
                if patch_step_ok(h0, pat, value as int) {
                    r is Ok && final(header)@ == patched(h0, pat, value as int)
                } else {
                    &&& final(header)@ == h0
                    &&& r matches Err(e) && step_err(h0, pat, name@, value as int, e)
                }
            }),
    {
        let ghost h0 = header@;
        let ghost pat = hex_bytes(replace_pattern@);
        let pattern = match decode_hex(replace_pattern) {
            Ok(p) => p,
            Err(e) => {
                return Err(e);
            },
        };
        let placeholder = Placeholder { name: String::from_str(name), pattern };
        let range = match locate(&placeholder, header.as_slice()) {
            Ok(rg) => rg,
            Err(e) => {
                return Err(e);
            },
        };
        proof {
            lemma_unique_count(h0, pat, range.start as int);
        }
        if value > 0xFFFF {
            return Err(Error::IntegerOverflow { field: String::from_str(name), value });
        }
        let hi = (value / 256) as u8;
        let lo = (value % 256) as u8;
        header.set(range.start, hi);
        header.set(range.start + 1, lo);
        proof {
            let mi = match_index(h0, pat);
            assert(matches_at(h0, pat, range.start as int));
            assert(exists|i: int| matches_at(h0, pat, i));
            assert(matches_at(h0, pat, mi));
            assert(mi == range.start as int);
        }
        Ok(())
    }

    /// Patch the three self-referential header fields in place: the
    /// header's own length into the start-of-contract field, then the
    /// body's length into the end-of-contract and length-of-contract
    /// fields. The body is only read; the header keeps its length.
    pub fn replace_contract_offset_parameters_in_header(
        header: &mut Vec<u8>,
        body: &[u8],
    ) -> (r: Result<(), Error>)
        ensures
            final(header)@.len() == old(header)@.len(),
            final(header)@ == patch_progress(old(header)@, body@.len() as int),
            r is Ok <==> patch_all_ok(old(header)@, body@.len() as int),
            r is Ok ==> final(header)@ == patch_all(old(header)@, body@.len() as int),
            r matches Err(e) ==> patch_all_err(old(header)@, body@.len() as int, e),
    {
        proof {
            lemma_marker_bytes();
        }
        let body_length = body.len();
        let header_length = header.len();
        match Self::replace_offset_parameter_in_header(
            "1001",
            "start of contract when loading into memory",
            header_length,
            header,
        ) {
            Ok(()) => {},
            Err(e) => {
                return Err(e);
            },
        }
        match Self::replace_offset_parameter_in_header(
            "2002",
            "end of contract when loading into memory",
            body_length,
            header,
        ) {
            Ok(()) => {},
            Err(e) => {
                return Err(e);
            },
        }
        match Self::replace_offset_parameter_in_header(
            "3003",
            "length of contract when returning for execution",
            body_length,
            header,
        ) {
            Ok(()) => {},
            Err(e) => {
                return Err(e);
            },
        }
        Ok(())
    }

    /// Build a compiled contract from an assembled header, an assembled
    /// body and the template's placeholder table: patch the header's
    /// self-referential fields, then concatenate header and body.
    pub fn new(
        header: Vec<u8>,
        body: Vec<u8>,
        placeholder_config: PlaceholderConfig,
    ) -> (r: Result<EthereumContract, Error>)
        requires
            placeholder_config.wf(),
        ensures
            match r {
                Ok(c) => {
                    &&& patch_all_ok(header@, body@.len() as int)
                    &&& c.spec_bytes() == patch_all(header@, body@.len() as int) + body@
                    &&& c.spec_bytes().len() == header@.len() + body@.len()
                    &&& c.spec_config() == placeholder_config
                    &&& c.wf()
                },
                Err(e) => patch_all_err(header@, body@.len() as int, e),
            },
    {
        let mut bytes = header;
        let mut contract_body = body;
        match Self::replace_contract_offset_parameters_in_header(
            &mut bytes,
            contract_body.as_slice(),
        ) {
            Ok(()) => {},
            Err(e) => {
                return Err(e);
            },
        }
        bytes.append(&mut contract_body);
        Ok(EthereumContract { bytes, placeholder_config })
    }

    /// A read-only snapshot of the compiled contract.
    pub fn metadata(&self) -> (m: Metadata)
        ensures
            m.protocol_name@ == self.spec_config().protocol_name@,
            m.contract@ == self.spec_bytes(),
    {
        Metadata {
            protocol_name: self.placeholder_config.protocol_name.clone(),
            contract: slice_to_vec(self.bytes.as_slice()),
        }
    }

    /// The placeholder table this contract was configured with.
    pub fn placeholder_config(&self) -> (c: &PlaceholderConfig)
        ensures
            *c == self.spec_config(),
    {
        &self.placeholder_config
    }

    /// The contract's final bytes.
    pub fn bytes(&self) -> (b: &[u8])
        ensures
            b@ == self.spec_bytes(),
    {
        self.bytes.as_slice()
    }
}

} // verus!
