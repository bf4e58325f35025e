//! Declarative schema: gate layouts and algorithm chains as plain data.
//!
//! A gate is a named, ordered list of cells; an algorithm is a named chain of
//! arithmetic steps over named operands. These objects carry no behaviour;
//! they are built once from configuration and read everywhere else.

use vstd::prelude::*;

use crate::string_eq_lit;

verus! {

/// The kind of column a cell lives in.
#[derive(Copy, Clone, Debug, Eq, PartialEq, Structural)]
pub enum ColType {
    Constant,
    Selector,
    Fixed,
    Advice,
    Instance,
}

/// The role a cell plays inside a gate.
#[derive(Copy, Clone, Debug, Eq, PartialEq, Structural)]
pub enum CellType {
    Input,
    YInput,
    Instance,
    Piece,
    Slice,
    TopSlice,
    PadSlice,
    YSlice,
    CanonicityCheckSlice,
    CanonicityCheckZ13,
    CanonicityCheck,
    PrimeCheck,
}

/// The row offset at which a cell is read: the current row, the one after
/// it, or the one before it.
#[derive(Copy, Clone, Debug, Eq, PartialEq, Structural)]
pub enum RowType {
    Cur,
    Next,
    Prev,
}

impl CellType {
    /// Whether the name is one of the recognised cell-type names.
    pub open spec fn spec_is_valid_name(s: Seq<char>) -> bool {
        ||| s == "Input"@
        ||| s == "YInput"@
        ||| s == "Instance"@
        ||| s == "Piece"@
        ||| s == "Slice"@
        ||| s == "TopSlice"@
        ||| s == "PadSlice"@
        ||| s == "YSlice"@
        ||| s == "CanonicityCheckSlice"@
        ||| s == "CanonicityCheckZ13"@
        ||| s == "CanonicityCheck"@
        ||| s == "PrimeCheck"@
    }

    /// The cell type a recognised name denotes.
    pub open spec fn spec_from_name(s: Seq<char>) -> CellType {
        if s == "Input"@ {
            CellType::Input
        } else if s == "YInput"@ {
            CellType::YInput
        } else if s == "Instance"@ {
            CellType::Instance
        } else if s == "Piece"@ {
            CellType::Piece
        } else if s == "Slice"@ {
            CellType::Slice
        } else if s == "TopSlice"@ {
            CellType::TopSlice
        } else if s == "PadSlice"@ {
            CellType::PadSlice
        } else if s == "YSlice"@ {
            CellType::YSlice
        } else if s == "CanonicityCheckSlice"@ {
            CellType::CanonicityCheckSlice
        } else if s == "CanonicityCheckZ13"@ {
            CellType::CanonicityCheckZ13
        } else if s == "CanonicityCheck"@ {
            CellType::CanonicityCheck
        } else {
            CellType::PrimeCheck
        }
    }

    /// Parses a cell-type name; `None` exactly on unrecognised names.
    pub fn parse(celltype: &String) -> (r: Option<CellType>)
        ensures
            r is Some <==> Self::spec_is_valid_name(celltype@),
            r is Some ==> r->Some_0 == Self::spec_from_name(celltype@),
    {
        if string_eq_lit(celltype, "Input") {
            Some(CellType::Input)
        } else if string_eq_lit(celltype, "YInput") {
            Some(CellType::YInput)
        } else if string_eq_lit(celltype, "Instance") {
            Some(CellType::Instance)
        } else if string_eq_lit(celltype, "Piece") {
            Some(CellType::Piece)
        } else if string_eq_lit(celltype, "Slice") {
            Some(CellType::Slice)
        } else if string_eq_lit(celltype, "TopSlice") {
            Some(CellType::TopSlice)
        } else if string_eq_lit(celltype, "PadSlice") {
            Some(CellType::PadSlice)
        } else if string_eq_lit(celltype, "YSlice") {
            Some(CellType::YSlice)
        } else if string_eq_lit(celltype, "CanonicityCheckSlice") {
            Some(CellType::CanonicityCheckSlice)
        } else if string_eq_lit(celltype, "CanonicityCheckZ13") {
            Some(CellType::CanonicityCheckZ13)
        } else if string_eq_lit(celltype, "CanonicityCheck") {
            Some(CellType::CanonicityCheck)
        } else if string_eq_lit(celltype, "PrimeCheck") {
            Some(CellType::PrimeCheck)
        } else {
            None
        }
    }

    /// Converts a recognised cell-type name to its cell type.
    pub fn from(celltype: &String) -> (r: CellType)
        requires
            Self::spec_is_valid_name(celltype@),
        ensures
            r == Self::spec_from_name(celltype@),
    {
        Self::parse(celltype).unwrap()
    }

    /// An input row starts with a plain input or an x-with-parity input.
    pub fn is_input_cell(celltype: Self) -> (r: bool)
        ensures
            r == (celltype == CellType::Input || celltype == CellType::YInput),
    {
        celltype == Self::Input || celltype == Self::YInput
    }

    /// The cell kinds whose value contributes to a piece's decomposition.
    pub fn is_piece_or_slice_cell(celltype: Self) -> (r: bool)
        ensures
            r == (celltype == CellType::Piece || celltype == CellType::Slice
                || celltype == CellType::TopSlice || celltype == CellType::CanonicityCheckSlice),
    {
        celltype == Self::Piece || celltype == Self::Slice || celltype == Self::TopSlice
            || celltype == Self::CanonicityCheckSlice
    }

    /// The running-sum companion cell of a canonicity check.
    pub fn is_z13_cell(celltype: Self) -> (r: bool)
        ensures
            r == (celltype == CellType::CanonicityCheckZ13),
    {
        celltype == Self::CanonicityCheckZ13
    }

    /// The witnessed companion cells of a canonicity proof.
    pub fn is_canonicity_or_prime_cell(celltype: Self) -> (r: bool)
        ensures
            r == (celltype == CellType::CanonicityCheck || celltype == CellType::PrimeCheck),
    {
        celltype == Self::CanonicityCheck || celltype == Self::PrimeCheck
    }
}

impl ColType {
    /// Whether the name is one of the recognised column-type names.
    pub open spec fn spec_is_valid_name(s: Seq<char>) -> bool {
        ||| s == "Constant"@
        ||| s == "Selector"@
        ||| s == "Fixed"@
        ||| s == "Advice"@
        ||| s == "Instance"@
    }

    /// The column type a recognised name denotes.
    pub open spec fn spec_from_name(s: Seq<char>) -> ColType {
        if s == "Constant"@ {
            ColType::Constant
        } else if s == "Selector"@ {
            ColType::Selector
        } else if s == "Fixed"@ {
            ColType::Fixed
        } else if s == "Advice"@ {
            ColType::Advice
        } else {
            ColType::Instance
        }
    }

    /// Parses a column-type name; `None` exactly on unrecognised names.
    pub fn parse(coltype: &String) -> (r: Option<ColType>)
        ensures
            r is Some <==> Self::spec_is_valid_name(coltype@),
            r is Some ==> r->Some_0 == Self::spec_from_name(coltype@),
    {
        if string_eq_lit(coltype, "Constant") {
            Some(ColType::Constant)
        } else if string_eq_lit(coltype, "Selector") {
            Some(ColType::Selector)
        } else if string_eq_lit(coltype, "Fixed") {
            Some(ColType::Fixed)
        } else if string_eq_lit(coltype, "Advice") {
            Some(ColType::Advice)
        } else if string_eq_lit(coltype, "Instance") {
            Some(ColType::Instance)
        } else {
            None
        }
    }

    /// Converts a recognised column-type name to its column type.
    pub fn from(coltype: &String) -> (r: ColType)
        requires
            Self::spec_is_valid_name(coltype@),
        ensures
            r == Self::spec_from_name(coltype@),
    {
        Self::parse(coltype).unwrap()
    }
}

impl RowType {
    /// Whether the name is one of the recognised row names.
    pub open spec fn spec_is_valid_name(s: Seq<char>) -> bool {
        ||| s == "Cur"@
        ||| s == "Next"@
        ||| s == "Prev"@
    }

    /// The row a recognised name denotes.
    pub open spec fn spec_from_name(s: Seq<char>) -> RowType {
        if s == "Cur"@ {
            RowType::Cur
        } else if s == "Next"@ {
            RowType::Next
        } else {
            RowType::Prev
        }
    }

    /// Parses a row name; `None` exactly on unrecognised names.
    pub fn parse(rowtype: &String) -> (r: Option<RowType>)
        ensures
            r is Some <==> Self::spec_is_valid_name(rowtype@),
            r is Some ==> r->Some_0 == Self::spec_from_name(rowtype@),
    {
        if string_eq_lit(rowtype, "Cur") {
            Some(RowType::Cur)
        } else if string_eq_lit(rowtype, "Next") {
            Some(RowType::Next)
        } else if string_eq_lit(rowtype, "Prev") {
            Some(RowType::Prev)
        } else {
            None
        }
    }

    /// Converts a recognised row name to its row.
    pub fn from(rowtype: &String) -> (r: RowType)
        requires
            Self::spec_is_valid_name(rowtype@),
        ensures
            r == Self::spec_from_name(rowtype@),
    {
        Self::parse(rowtype).unwrap()
    }
}

/// One cell of a gate: a named value at a (column, row) position with a
/// declared bit width and an optional semantic attribute.
#[derive(Clone, Debug)]
pub struct CellInfo {
    pub name: String,
    pub celltype: CellType,
    pub coltype: ColType,
    pub col: usize,
    pub row: RowType,
    pub width: usize,
    pub attr: Option<String>,
}

/// One named gate layout.
#[derive(Clone, Debug)]
pub struct GateInfo {
    pub name: String,
    pub cells: Vec<CellInfo>,
}

/// A reference to an operand: its name in the environment and the tag
/// naming which kind of operand the configuration expects there.
#[derive(Clone, Debug)]
pub struct OperandRef {
    pub name: String,
    pub tag: String,
}

/// One step of an algorithm chain: an operator applied to one or two named
/// operands, its result stored under `name` when that is non-empty.
#[derive(Clone, Debug)]
pub struct AlgoItem {
    pub name: String,
    pub desc: String,
    pub operator: String,
    pub operand1: OperandRef,
    pub operand2: Option<OperandRef>,
}

/// One entry of a chain: the operator that combines this step with the
/// running result (empty for the first entry), and the step itself.
#[derive(Clone, Debug)]
pub struct ChainItem {
    pub chain_op: String,
    pub item: AlgoItem,
}

/// A named chain of steps, folded left to right.
#[derive(Clone, Debug)]
pub struct Algo {
    pub name: String,
    pub desc: String,
    pub items: Vec<ChainItem>,
}


/// The order of the public inputs, supplied by the configuration.
pub trait InstanceOrder {
    fn get_instance_order() -> Vec<String>;
}

/// The commitment gate layouts, supplied by the configuration.
pub trait ISinsemillaCircuit {
    fn get_commit_gate_config(domain: &String) -> Vec<GateInfo>;
}


/// One cell of a gate as the configuration spells it, with type names as
/// strings.
#[derive(Clone, Debug)]
pub struct CellConfig {
    pub name: String,
    pub attr: String,
    pub celltype: String,
    pub coltype: String,
    pub col: usize,
    pub row: String,
    pub width: usize,
}

impl GateInfo {
    /// Builds a gate from its configuration; `None` exactly where a cell
    /// names an unknown cell, column or row type. An empty attribute means
    /// no attribute.
    pub fn from_config(name: &String, cells: &Vec<CellConfig>) -> (r: Option<GateInfo>)
        ensures
            (r is Some) <==> (forall|i: int|
                0 <= i < cells@.len() ==> {
                    let c = #[trigger] cells@[i];
                    &&& CellType::spec_is_valid_name(c.celltype@)
                    &&& ColType::spec_is_valid_name(c.coltype@)
                    &&& RowType::spec_is_valid_name(c.row@)
                }),
            r matches Some(g) ==> {
                &&& g.name@ == name@
                &&& g.cells@.len() == cells@.len()
                &&& forall|i: int|
                    0 <= i < cells@.len() ==> {
                        let c = cells@[i];
                        let out = #[trigger] g.cells@[i];
                        &&& out.name@ == c.name@
                        &&& out.celltype == CellType::spec_from_name(c.celltype@)
                        &&& out.coltype == ColType::spec_from_name(c.coltype@)
                        &&& out.row == RowType::spec_from_name(c.row@)
                        &&& out.col == c.col
                        &&& out.width == c.width
                        &&& (c.attr@.len() == 0 ==> out.attr is None)
                        &&& (c.attr@.len() > 0 ==> (out.attr matches Some(a) && a@ == c.attr@))
                    }
            },
    {
        let mut out: Vec<CellInfo> = Vec::new();
        let mut i: usize = 0;
        while i < cells.len()
            invariant
                i <= cells@.len(),
                out@.len() == i,
                forall|j: int|
                    0 <= j < i ==> {
                        let c = #[trigger] cells@[j];
                        &&& CellType::spec_is_valid_name(c.celltype@)
                        &&& ColType::spec_is_valid_name(c.coltype@)
                        &&& RowType::spec_is_valid_name(c.row@)
                    },
                forall|j: int|
                    0 <= j < i ==> {
                        let c = cells@[j];
                        let o = #[trigger] out@[j];
                        &&& o.name@ == c.name@
                        &&& o.celltype == CellType::spec_from_name(c.celltype@)
                        &&& o.coltype == ColType::spec_from_name(c.coltype@)
                        &&& o.row == RowType::spec_from_name(c.row@)
                        &&& o.col == c.col
                        &&& o.width == c.width
                        &&& (c.attr@.len() == 0 ==> o.attr is None)
                        &&& (c.attr@.len() > 0 ==> (o.attr matches Some(a) && a@ == c.attr@))
                    },
            decreases cells@.len() - i,
        {
            let c = &cells[i];
            let celltype = match CellType::parse(&c.celltype) {
                Some(t) => t,
                None => {
                    return None;
                },
            };
            let coltype = match ColType::parse(&c.coltype) {
                Some(t) => t,
                None => {
                    return None;
                },
            };
            let row = match RowType::parse(&c.row) {
                Some(t) => t,
                None => {
                    return None;
                },
            };
            let attr = if c.attr.as_str().is_empty() {
                None
            } else {
                Some(c.attr.clone())
            };
            out.push(CellInfo {
                name: c.name.clone(),
                celltype,
                coltype,
                col: c.col,
                row,
                width: c.width,
                attr,
            });
            i = i + 1;
        }
        Some(GateInfo { name: name.clone(), cells: out })
    }
}

/// One step of an algorithm chain as the configuration spells it.
#[derive(Clone, Debug)]
pub struct AlgoItemConfig {
    pub chain_op: String,
    pub name: String,
    pub desc: String,
    pub operand1: OperandRef,
    pub operator: String,
    pub operand2: Option<OperandRef>,
}

impl Algo {
    /// Builds an algorithm chain from its configuration, field for field.
    pub fn from_config(name: &String, desc: &String, items: &Vec<AlgoItemConfig>) -> (r: Algo)
        ensures
            r.name@ == name@,
            r.desc@ == desc@,
            r.items@.len() == items@.len(),
            forall|i: int|
                0 <= i < items@.len() ==> {
                    let c = items@[i];
                    let o = #[trigger] r.items@[i];
                    &&& o.chain_op@ == c.chain_op@
                    &&& o.item.name@ == c.name@
                    &&& o.item.desc@ == c.desc@
                    &&& o.item.operator@ == c.operator@
                    &&& o.item.operand1.name@ == c.operand1.name@
                    &&& o.item.operand1.tag@ == c.operand1.tag@
                    &&& (c.operand2 is None ==> o.item.operand2 is None)
                    &&& (c.operand2 matches Some(p) ==> (o.item.operand2 matches Some(q) && q.name@
                        == p.name@ && q.tag@ == p.tag@))
                },
    {
        let mut out: Vec<ChainItem> = Vec::new();
        let mut i: usize = 0;
        while i < items.len()
            invariant
                i <= items@.len(),
                out@.len() == i,
                forall|j: int|
                    0 <= j < i ==> {
                        let c = items@[j];
                        let o = #[trigger] out@[j];
                        &&& o.chain_op@ == c.chain_op@
                        &&& o.item.name@ == c.name@
                        &&& o.item.desc@ == c.desc@
                        &&& o.item.operator@ == c.operator@
                        &&& o.item.operand1.name@ == c.operand1.name@
                        &&& o.item.operand1.tag@ == c.operand1.tag@
                        &&& (c.operand2 is None ==> o.item.operand2 is None)
                        &&& (c.operand2 matches Some(p) ==> (o.item.operand2 matches Some(q)
                            && q.name@ == p.name@ && q.tag@ == p.tag@))
                    },
            decreases items@.len() - i,
        {
            let c = &items[i];
            let operand2 = match &c.operand2 {
                Some(p) => Some(OperandRef { name: p.name.clone(), tag: p.tag.clone() }),
                None => None,
            };
            out.push(ChainItem {
                chain_op: c.chain_op.clone(),
                item: AlgoItem {
                    name: c.name.clone(),
                    desc: c.desc.clone(),
                    operator: c.operator.clone(),
                    operand1: OperandRef { name: c.operand1.name.clone(), tag: c.operand1.tag.clone() },
                    operand2,
                },
            });
            i = i + 1;
        }
        Algo { name: name.clone(), desc: desc.clone(), items: out }
    }
}

} // verus!
