//! The offset reporter: every configured placeholder's byte range inside a
//! compiled contract, in declaration order.

use vstd::prelude::*;

use crate::contract::EthereumContract;
use crate::error::Error;
use crate::locator::count_matches;
use crate::locator::lemma_unique_count;
use crate::locator::locate;
use crate::locator::locate_err;
use crate::locator::matches_at;
use crate::locator::ByteRange;
use crate::locator::Placeholder;

verus! {

/// One row of an offset report: a placeholder's name and the byte range
/// where its pattern was located.
pub struct PlaceholderOffset {
    pub name: String,
    pub range: ByteRange,
}

/// A report matches a contract: one row per configured placeholder, in
/// declaration order, each row holding the unique position of its
/// placeholder's pattern in the contract's bytes.
pub open spec fn report_matches(
    bytes: Seq<u8>,
    placeholders: Seq<Placeholder>,
    report: Seq<PlaceholderOffset>,
) -> bool {
    &&& report.len() == placeholders.len()
    &&& forall|k: int|
        0 <= k < placeholders.len() ==> {
            let entry = #[trigger] report[k];
            let pat = placeholders[k].pattern@;
            &&& entry.name@ == placeholders[k].name@
            &&& entry.range.excluded_end == entry.range.start + pat.len()
            &&& matches_at(bytes, pat, entry.range.start as int)
            &&& forall|j: int| matches_at(bytes, pat, j) ==> j == entry.range.start
        }
}

/// Locate every configured placeholder in the contract's final bytes.
///
/// Rows come in placeholder declaration order. The first placeholder whose
/// pattern is missing or ambiguous fails the whole report with that
/// placeholder's error; every placeholder before it had located cleanly.
pub fn placeholder_offsets(contract: &EthereumContract) -> (r: Result<
    Vec<PlaceholderOffset>,
    Error,
>)
    requires
        contract.wf(),
    ensures
        match r {
            Ok(report) => report_matches(
                contract.spec_bytes(),
                contract.spec_config().placeholders@,
                report@,
            ),
            Err(e) => exists|k: int|
                #![trigger contract.spec_config().placeholders@[k]]
                {
                    &&& 0 <= k < contract.spec_config().placeholders@.len()
                    &&& locate_err(
                        contract.spec_config().placeholders@[k].name@,
                        contract.spec_config().placeholders@[k].pattern@,
                        contract.spec_bytes(),
                        e,
                    )
                    &&& forall|m: int|
                        0 <= m < k ==> count_matches(
                            contract.spec_bytes(),
                            contract.spec_config().placeholders@[m].pattern@,
                        ) == 1
                },
        },
{
    let config = contract.placeholder_config();
    let bytes = contract.bytes();
    let n = config.placeholders.len();
    let mut report: Vec<PlaceholderOffset> = Vec::new();
    let mut k: usize = 0;
    while k < n
        invariant
            contract.wf(),
            n == contract.spec_config().placeholders@.len(),
            config.placeholders@ == contract.spec_config().placeholders@,
            bytes@ == contract.spec_bytes(),
            k <= n,
            report_matches(bytes@, config.placeholders@.take(k as int), report@),
            forall|m: int|
                0 <= m < k ==> count_matches(
                    bytes@,
                    (#[trigger] config.placeholders@[m]).pattern@,
                ) == 1,
        decreases n - k,
    {
        let placeholder = &config.placeholders[k];
        match locate(placeholder, bytes) {
            Ok(range) => {
                proof {
                    lemma_unique_count(bytes@, placeholder.pattern@, range.start as int);
                }
                report.push(PlaceholderOffset { name: placeholder.name.clone(), range });
                proof {
                    assert(config.placeholders@.take(k + 1).drop_last() =~= config.placeholders@
                        .take(k as int));
                    assert(report_matches(
                        bytes@,
                        config.placeholders@.take(k + 1),
                        report@,
                    ));
                }
            },
            Err(e) => {
                return Err(e);
            },
        }
        k = k + 1;
    }
    proof {
        assert(config.placeholders@.take(n as int) =~= config.placeholders@);
    }
    Ok(report)
}

/// Round trip: slicing each reported range out of the contract's bytes
/// gives back exactly the configured pattern it was located for.
pub proof fn lemma_report_round_trip(
    bytes: Seq<u8>,
    placeholders: Seq<Placeholder>,
    report: Seq<PlaceholderOffset>,
)
    requires
        report_matches(bytes, placeholders, report),
    ensures
        forall|k: int|
            0 <= k < report.len() ==> bytes.subrange(
                (#[trigger] report[k]).range.start as int,
                report[k].range.excluded_end as int,
            ) == placeholders[k].pattern@,
{
    assert forall|k: int| 0 <= k < report.len() implies bytes.subrange(
        (#[trigger] report[k]).range.start as int,
        report[k].range.excluded_end as int,
    ) == placeholders[k].pattern@ by {
        assert(matches_at(bytes, placeholders[k].pattern@, report[k].range.start as int));
    }
}

} // verus!
