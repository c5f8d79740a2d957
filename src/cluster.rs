//! Splitting a line of cells into runs that share their attributes.
use vstd::prelude::*;

use crate::attrs::CellAttributes;

verus! {

/// Number of bytes that `c` takes in UTF-8.
pub open spec fn spec_utf8_len(c: char) -> nat {
    if (c as u32) < 0x80 {
        1
    } else if (c as u32) < 0x800 {
        2
    } else if (c as u32) < 0x10000 {
        3
    } else {
        4
    }
}

/// Number of bytes that `s` takes in UTF-8.
pub open spec fn spec_utf8_len_seq(s: Seq<char>) -> nat
    decreases s.len(),
{
    if s.len() == 0 {
        0
    } else {
        spec_utf8_len_seq(s.drop_last()) + spec_utf8_len(s.last())
    }
}

/// Number of bytes that `c` takes in UTF-8.
pub fn utf8_len(c: char) -> (r: usize)
    ensures
        r == spec_utf8_len(c),
{
    let u = c as u32;
    if u < 0x80 {
        1
    } else if u < 0x800 {
        2
    } else if u < 0x10000 {
        3
    } else {
        4
    }
}

/// One cell of a line: the text it shows and its attributes.
#[derive(Clone, Debug)]
pub struct Cell {
    pub text: Vec<char>,
    pub attrs: CellAttributes,
}

/// A maximal run of cells with equal attributes.  `byte_to_cell_idx`
/// gives, for each byte offset into the UTF-8 form of `text`, the column
/// of the cell that the byte came from.
#[derive(Clone, Debug)]
pub struct CellCluster {
    pub attrs: CellAttributes,
    pub text: Vec<char>,
    pub byte_to_cell_idx: Vec<usize>,
}

pub struct ClusterModel {
    pub attrs: CellAttributes,
    pub text: Seq<char>,
    pub byte_to_cell_idx: Seq<usize>,
}

impl View for CellCluster {
    type V = ClusterModel;

    open spec fn view(&self) -> ClusterModel {
        ClusterModel { attrs: self.attrs, text: self.text@, byte_to_cell_idx: self.byte_to_cell_idx@ }
    }
}

/// The byte-to-cell entries that the text of cell `idx` contributes.
pub open spec fn cell_bytes(text: Seq<char>, idx: usize) -> Seq<usize> {
    Seq::new(spec_utf8_len_seq(text), |k: int| idx)
}

/// A new run that starts with cell `idx`.
pub open spec fn start_cluster(cell: Cell, idx: usize) -> ClusterModel {
    ClusterModel { attrs: cell.attrs, text: cell.text@, byte_to_cell_idx: cell_bytes(cell.text@, idx) }
}

/// `cl` with cell `idx` appended.
pub open spec fn extend_cluster(cl: ClusterModel, cell: Cell, idx: usize) -> ClusterModel {
    ClusterModel {
        attrs: cl.attrs,
        text: cl.text + cell.text@,
        byte_to_cell_idx: cl.byte_to_cell_idx + cell_bytes(cell.text@, idx),
    }
}

/// The runs of the first `n` cells of a line.
pub open spec fn spec_clusters(cells: Seq<Cell>, n: int) -> Seq<ClusterModel>
    decreases n,
{
    if n <= 0 {
        Seq::empty()
    } else {
        let prev = spec_clusters(cells, n - 1);
        let cell = cells[n - 1];
        if prev.len() > 0 && prev.last().attrs == cell.attrs {
            prev.drop_last().push(extend_cluster(prev.last(), cell, (n - 1) as usize))
        } else {
            prev.push(start_cluster(cell, (n - 1) as usize))
        }
    }
}

/// Appends the text of cell `idx` to a run under construction.
fn append_cell(text: &mut Vec<char>, bytes: &mut Vec<usize>, cell_text: &Vec<char>, idx: usize)
    ensures
        final(text)@ == old(text)@ + cell_text@,
        final(bytes)@ == old(bytes)@ + cell_bytes(cell_text@, idx),
{
    let mut i: usize = 0;
    while i < cell_text.len()
        invariant
            i <= cell_text.len(),
            text@ == old(text)@ + cell_text@.subrange(0, i as int),
            bytes@ == old(bytes)@ + cell_bytes(cell_text@.subrange(0, i as int), idx),
        decreases cell_text.len() - i,
    {
        let c = cell_text[i];
        let n = utf8_len(c);
        let mut k: usize = 0;
        let ghost before = bytes@;
        while k < n
            invariant
                k <= n,
                n == spec_utf8_len(c),
                bytes@ == before + Seq::new(k as nat, |j: int| idx),
            decreases n - k,
        {
            bytes.push(idx);
            k = k + 1;
            proof {
                assert(bytes@ =~= before + Seq::new(k as nat, |j: int| idx));
            }
        }
        text.push(c);
        proof {
            let s = cell_text@.subrange(0, i as int);
            let s1 = cell_text@.subrange(0, i + 1);
            assert(s1.drop_last() =~= s);
            assert(s1.last() == c);
            assert(text@ =~= old(text)@ + s1);
            assert(bytes@ =~= old(bytes)@ + cell_bytes(s1, idx));
        }
        i = i + 1;
    }
    proof {
        assert(cell_text@.subrange(0, cell_text@.len() as int) =~= cell_text@);
    }
}

/// Splits a line into maximal runs of cells with equal attributes,
/// keeping for each run the map from byte offset to cell column.
pub fn cluster_line(cells: &Vec<Cell>) -> (r: Vec<CellCluster>)
    ensures
        r@.map_values(|c: CellCluster| c@) == spec_clusters(cells@, cells@.len() as int),
{
    let mut done: Vec<CellCluster> = Vec::new();
    if cells.len() == 0 {
        proof {
            assert(done@.map_values(|c: CellCluster| c@) =~= spec_clusters(cells@, 0));
        }
        return done;
    }
    let mut cur_attrs = cells[0].attrs;
    let mut cur_text: Vec<char> = Vec::new();
    let mut cur_bytes: Vec<usize> = Vec::new();
    append_cell(&mut cur_text, &mut cur_bytes, &cells[0].text, 0);
    proof {
        assert(cur_text@ =~= cells@[0].text@);
        assert(cur_bytes@ =~= cell_bytes(cells@[0].text@, 0));
        assert(spec_clusters(cells@, 0) =~= Seq::<ClusterModel>::empty());
        assert(spec_clusters(cells@, 1) =~= seq![start_cluster(cells@[0], 0)]);
    }
    let mut i: usize = 1;
    while i < cells.len()
        invariant
            1 <= i <= cells.len(),
            spec_clusters(cells@, i as int) == done@.map_values(|c: CellCluster| c@).push(
                ClusterModel { attrs: cur_attrs, text: cur_text@, byte_to_cell_idx: cur_bytes@ },
            ),
        decreases cells.len() - i,
    {
        let ghost prev = spec_clusters(cells@, i as int);
        let ghost cur = ClusterModel { attrs: cur_attrs, text: cur_text@, byte_to_cell_idx: cur_bytes@ };
        if cells[i].attrs == cur_attrs {
            append_cell(&mut cur_text, &mut cur_bytes, &cells[i].text, i);
            proof {
                assert(prev.last() == cur);
                assert(prev.drop_last() =~= done@.map_values(|c: CellCluster| c@));
            }
        } else {
            let finished = CellCluster { attrs: cur_attrs, text: cur_text, byte_to_cell_idx: cur_bytes };
            done.push(finished);
            cur_attrs = cells[i].attrs;
            cur_text = Vec::new();
            cur_bytes = Vec::new();
            append_cell(&mut cur_text, &mut cur_bytes, &cells[i].text, i);
            proof {
                assert(prev.last() == cur);
                assert(cur_text@ =~= cells@[i as int].text@);
                assert(cur_bytes@ =~= cell_bytes(cells@[i as int].text@, i));
                assert(done@.map_values(|c: CellCluster| c@) =~= prev);
            }
        }
        proof {
            assert(spec_clusters(cells@, i + 1) =~= done@.map_values(|c: CellCluster| c@).push(
                ClusterModel { attrs: cur_attrs, text: cur_text@, byte_to_cell_idx: cur_bytes@ },
            ));
        }
        i = i + 1;
    }
    let last = CellCluster { attrs: cur_attrs, text: cur_text, byte_to_cell_idx: cur_bytes };
    let ghost before = done@;
    done.push(last);
    proof {
        assert(done@.map_values(|c: CellCluster| c@) =~= before.map_values(|c: CellCluster| c@).push(
            last@,
        ));
    }
    done
}

} // verus!
