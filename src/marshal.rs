//! The boundary payload: one length-tagged buffer per sheet, and its release.
use vstd::prelude::*;

use crate::sheet::{FlatSheet, texts};

verus! {

/// One sheet as it crosses the boundary: a name, and a buffer of cell texts
/// together with its length. The buffer is absent exactly when the length
/// is zero; an empty allocation is never handed out.
pub struct MarshaledSheet {
    name: String,
    buffer: Option<Vec<String>>,
    length: usize,
}

/// Everything read from one workbook, one entry per readable sheet, in the
/// order of the workbook's sheets.
pub struct MarshaledSpreadsheet {
    pub sheets: Vec<MarshaledSheet>,
}

impl MarshaledSheet {
    #[verifier::type_invariant]
    spec fn null_iff_empty(&self) -> bool {
        match self.buffer {
            None => self.length == 0,
            Some(v) => self.length > 0 && v.len() == self.length,
        }
    }

    /// The sheet's name.
    pub closed spec fn name_view(&self) -> Seq<char> {
        self.name@
    }

    /// The number of cell texts in the buffer.
    pub closed spec fn length(&self) -> nat {
        self.length as nat
    }

    /// Whether the buffer is absent.
    pub closed spec fn is_null(&self) -> bool {
        self.buffer is None
    }

    /// The cell texts in the buffer; none when it is absent.
    pub closed spec fn cells_view(&self) -> Seq<Seq<char>> {
        match self.buffer {
            None => Seq::empty(),
            Some(v) => texts(v@),
        }
    }

    /// The sheet's name.
    pub fn name(&self) -> (r: &String)
        ensures
            r@ == self.name_view(),
    {
        &self.name
    }

    /// The number of cell texts in the buffer.
    pub fn len(&self) -> (r: usize)
        ensures
            r == self.length(),
            r == self.cells_view().len(),
            (r == 0) == self.is_null(),
    {
        proof {
            use_type_invariant(self);
        }
        self.length
    }

    /// The buffer of cell texts, absent exactly when the length is zero.
    pub fn buffer(&self) -> (r: Option<&Vec<String>>)
        ensures
            r is None <==> self.is_null(),
            r is None <==> self.length() == 0,
            r matches Some(v) ==> texts(v@) == self.cells_view() && v@.len() == self.length(),
    {
        proof {
            use_type_invariant(self);
        }
        match &self.buffer {
            None => None,
            Some(v) => Some(v),
        }
    }

    /// Takes ownership of a flattened sheet's texts, leaving the buffer
    /// absent when the sheet has no cells.
    pub fn from_flat(sheet: FlatSheet) -> (r: Self)
        ensures
            r.name_view() == sheet.name@,
            r.cells_view() == texts(sheet.cells@),
            r.length() == sheet.cells@.len(),
            r.is_null() <==> sheet.cells@.len() == 0,
    {
        let FlatSheet { name, cells } = sheet;
        let length = cells.len();
        if length == 0 {
            MarshaledSheet { name, buffer: None, length: 0 }
        } else {
            MarshaledSheet { name, buffer: Some(cells), length }
        }
    }

    /// Hands over the name and the buffer, moving them out of the sheet.
    pub fn into_parts(self) -> (r: (String, Option<Vec<String>>))
        ensures
            r.0@ == self.name_view(),
            r.1 is None <==> self.length() == 0,
            r.1 matches Some(v) ==> texts(v@) == self.cells_view() && v@.len() == self.length(),
    {
        proof {
            use_type_invariant(&self);
        }
        (self.name, self.buffer)
    }

    /// Gives back the buffer, if any, for reclamation.
    fn into_buffer(self) -> (r: Option<Vec<String>>)
        ensures
            r is None <==> self.is_null(),
    {
        self.buffer
    }
}

/// The number of sheets of a payload whose buffer is present.
pub open spec fn present_buffers(sheets: Seq<MarshaledSheet>) -> nat
    decreases sheets.len(),
{
    if sheets.len() == 0 {
        0
    } else {
        present_buffers(sheets.drop_last()) + if sheets.last().is_null() { 0nat } else { 1nat }
    }
}

/// Every sheet of `m` is the marshaled form of the flattened sheet at the
/// same position of `flat`.
pub open spec fn marshals(flat: Seq<FlatSheet>, m: Seq<MarshaledSheet>) -> bool {
    &&& m.len() == flat.len()
    &&& forall|i: int|
        0 <= i < flat.len() ==> {
            &&& #[trigger] m[i].name_view() == flat[i].name@
            &&& m[i].cells_view() == texts(flat[i].cells@)
            &&& m[i].length() == flat[i].cells@.len()
            &&& m[i].is_null() <==> flat[i].cells@.len() == 0
        }
}

impl MarshaledSpreadsheet {
    /// A payload with no sheets.
    pub fn empty() -> (r: Self)
        ensures
            r.sheets@.len() == 0,
    {
        MarshaledSpreadsheet { sheets: Vec::new() }
    }
}

/// Moves each flattened sheet, in order, into a boundary buffer sized to its
/// cell count.
pub fn marshal(sheets: Vec<FlatSheet>) -> (r: MarshaledSpreadsheet)
    ensures
        marshals(sheets@, r.sheets@),
{
    let ghost flat = sheets@;
    let mut rest = sheets;
    let mut out: Vec<MarshaledSheet> = Vec::new();
    while rest.len() > 0
        invariant
            out@.len() + rest@.len() == flat.len(),
            rest@ == flat.subrange(out@.len() as int, flat.len() as int),
            marshals(flat.take(out@.len() as int), out@),
        decreases rest.len(),
    {
        let f = rest.remove(0);
        let m = MarshaledSheet::from_flat(f);
        let ghost k = out@.len() as int;
        out.push(m);
        assert(rest@ =~= flat.subrange(k + 1, flat.len() as int));
        assert forall|i: int| 0 <= i < k + 1 implies {
            &&& #[trigger] out@[i].name_view() == flat.take(k + 1)[i].name@
            &&& out@[i].cells_view() == texts(flat.take(k + 1)[i].cells@)
            &&& out@[i].length() == flat.take(k + 1)[i].cells@.len()
            &&& out@[i].is_null() <==> flat.take(k + 1)[i].cells@.len() == 0
        } by {
            if i < k {
                assert(flat.take(k)[i] == flat.take(k + 1)[i]);
            }
        }
    }
    assert(flat.take(out@.len() as int) =~= flat);
    MarshaledSpreadsheet { sheets: out }
}

/// Reclaims every buffer of the payload and reports how many were present.
/// Taking the payload by value makes a second release of it impossible; a
/// payload with no sheets reclaims nothing.
pub fn release(payload: MarshaledSpreadsheet) -> (reclaimed: usize)
    ensures
        reclaimed == present_buffers(payload.sheets@),
        payload.sheets@.len() == 0 ==> reclaimed == 0,
{
    let ghost all = payload.sheets@;
    let MarshaledSpreadsheet { sheets } = payload;
    let mut rest = sheets;
    let mut reclaimed: usize = 0;
    proof {
        lemma_present_buffers_bound(all);
    }
    let total: usize = rest.len();
    assert(all.len() == total);
    while rest.len() > 0
        invariant
            rest@ == all.take(rest@.len() as int),
            rest@.len() <= all.len(),
            reclaimed + present_buffers(rest@) == present_buffers(all),
            present_buffers(all) <= all.len(),
            all.len() <= usize::MAX,
        decreases rest.len(),
    {
        let ghost before = rest@;
        let s = rest.pop().unwrap();
        assert(before.drop_last() =~= rest@);
        assert(rest@ =~= all.take(rest@.len() as int));
        proof {
            lemma_present_buffers_bound(rest@);
        }
        match s.into_buffer() {
            None => {},
            Some(_buffer) => {
                // the buffer is dropped at the end of this arm
                reclaimed = reclaimed + 1;
            },
        }
    }
    reclaimed
}

/// The number of flattened sheets that hold at least one cell.
pub open spec fn nonempty_sheets(flat: Seq<FlatSheet>) -> nat
    decreases flat.len(),
{
    if flat.len() == 0 {
        0
    } else {
        nonempty_sheets(flat.drop_last()) + if flat.last().cells@.len() == 0 { 0nat } else { 1nat }
    }
}

/// Releasing a payload that `marshal` produced reclaims one buffer for each
/// sheet that had cells, and nothing for a payload with no sheets.
pub proof fn lemma_release_after_marshal(flat: Seq<FlatSheet>, m: Seq<MarshaledSheet>)
    requires
        marshals(flat, m),
    ensures
        present_buffers(m) == nonempty_sheets(flat),
        flat.len() == 0 ==> present_buffers(m) == 0,
    decreases flat.len(),
{
    if flat.len() > 0 {
        let k = flat.len() - 1;
        assert(m[k].name_view() == flat[k].name@);
        assert forall|i: int| 0 <= i < k implies {
            &&& #[trigger] m.drop_last()[i].name_view() == flat.drop_last()[i].name@
            &&& m.drop_last()[i].cells_view() == texts(flat.drop_last()[i].cells@)
            &&& m.drop_last()[i].length() == flat.drop_last()[i].cells@.len()
            &&& m.drop_last()[i].is_null() <==> flat.drop_last()[i].cells@.len() == 0
        } by {
            assert(m[i].name_view() == flat[i].name@);
        }
        lemma_release_after_marshal(flat.drop_last(), m.drop_last());
    }
}

proof fn lemma_present_buffers_bound(sheets: Seq<MarshaledSheet>)
    ensures
        present_buffers(sheets) <= sheets.len(),
    decreases sheets.len(),
{
    if sheets.len() > 0 {
        lemma_present_buffers_bound(sheets.drop_last());
    }
}

} // verus!
