//! Turning what was read from a workbook into the boundary payload.
use vstd::prelude::*;

use crate::cell::Cell;
use crate::marshal::{MarshaledSpreadsheet, marshal, marshals};
use crate::sheet::{FlatSheet, flatten, flatten_rows, grid, texts};

verus! {

/// One sheet as the parser delivered it: its name, and its rows when the
/// sheet could be read.
pub struct SheetRead {
    pub name: String,
    pub rows: Option<Vec<Vec<Cell>>>,
}

/// The name and flattened cell texts of each readable sheet, in order.
pub open spec fn readable_sheets(reads: Seq<SheetRead>) -> Seq<(Seq<char>, Seq<Seq<char>>)>
    decreases reads.len(),
{
    if reads.len() == 0 {
        Seq::empty()
    } else {
        let prefix = readable_sheets(reads.drop_last());
        match reads.last().rows {
            None => prefix,
            Some(rows) => prefix.push((reads.last().name@, flatten_rows(grid(rows@)))),
        }
    }
}

/// The number of sheets that could not be read.
pub open spec fn unreadable_count(reads: Seq<SheetRead>) -> nat
    decreases reads.len(),
{
    if reads.len() == 0 {
        0
    } else {
        unreadable_count(reads.drop_last()) + if reads.last().rows is None { 1nat } else { 0nat }
    }
}

/// Of the sheets a parser reports, exactly the unreadable ones are left out.
pub proof fn lemma_readable_count(reads: Seq<SheetRead>)
    ensures
        unreadable_count(reads) <= reads.len(),
        readable_sheets(reads).len() == reads.len() - unreadable_count(reads),
    decreases reads.len(),
{
    if reads.len() > 0 {
        lemma_readable_count(reads.drop_last());
    }
}

/// The payload for one workbook: `None` when the handle named no live
/// workbook, which gives a payload with no sheets; otherwise one marshaled
/// sheet per readable sheet, in the workbook's order, unreadable sheets
/// left out.
pub fn read_all_sheets(reads: Option<Vec<SheetRead>>) -> (r: MarshaledSpreadsheet)
    ensures
        reads is None ==> r.sheets@.len() == 0,
        reads matches Some(v) ==> {
            &&& r.sheets@.len() == v@.len() - unreadable_count(v@)
            &&& r.sheets@.len() == readable_sheets(v@).len()
            &&& forall|i: int|
                0 <= i < r.sheets@.len() ==> (#[trigger] r.sheets@[i].name_view(),
                    r.sheets@[i].cells_view()) == readable_sheets(v@)[i]
        },
{
    match reads {
        None => MarshaledSpreadsheet::empty(),
        Some(v) => {
            let mut flat: Vec<FlatSheet> = Vec::new();
            let mut i: usize = 0;
            while i < v.len()
                invariant
                    0 <= i <= v.len(),
                    flat@.len() == readable_sheets(v@.take(i as int)).len(),
                    forall|k: int|
                        0 <= k < flat@.len() ==> (#[trigger] flat@[k].name@, texts(flat@[k].cells@))
                            == readable_sheets(v@.take(i as int))[k],
                decreases v.len() - i,
            {
                let ghost before = flat@;
                assert(v@.take(i + 1).drop_last() =~= v@.take(i as int));
                match &v[i].rows {
                    None => {},
                    Some(rows) => {
                        let f = flatten(&v[i].name, rows);
                        flat.push(f);
                        assert forall|k: int| 0 <= k < flat@.len() implies (#[trigger] flat@[k].name@,
                            texts(flat@[k].cells@)) == readable_sheets(v@.take(i + 1))[k] by {
                            if k < before.len() {
                                assert(flat@[k] == before[k]);
                            }
                        }
                    },
                }
                i += 1;
            }
            assert(v@.take(i as int) =~= v@);
            proof {
                lemma_readable_count(v@);
            }
            let r = marshal(flat);
            assert(marshals(flat@, r.sheets@));
            assert forall|i: int| 0 <= i < r.sheets@.len() implies (#[trigger] r.sheets@[i].name_view(),
                r.sheets@[i].cells_view()) == readable_sheets(v@)[i] by {
                assert(r.sheets@[i].name_view() == flat@[i].name@);
            }
            r
        },
    }
}

} // verus!
