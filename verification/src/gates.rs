//! Gate-compiler decisions: the per-gate constraint polynomial at witness
//! level, public-input routing, value-pair naming, and the one-shot
//! assignment of each gate's region.

use vstd::prelude::*;

use crate::engine::SynthesisError;
use crate::field::{Fe, fe_add, fe_mul, fe_sub, fe_from_u64, p_modulus};
use crate::registry::{alist_get, alist_find_index};
use crate::schema::{Algo, AlgoItem, ChainItem};
use crate::string_eq_lit;
use vstd::string::StringExecFns;

verus! {

/// A named assignment of witness values to cells.
pub struct CellValues {
    pub items: Vec<(String, Fe)>,
}

impl CellValues {
    /// Every value is canonical.
    pub open spec fn wf(&self) -> bool {
        forall|i: int| 0 <= i < self.items@.len() ==> (#[trigger] self.items@[i]).1.wf()
    }

    /// The value bound to a name.
    pub open spec fn spec_get(&self, name: Seq<char>) -> Option<Fe> {
        alist_get(self.items@, name)
    }

    /// An empty assignment.
    pub fn new() -> (r: Self)
        ensures
            r.wf(),
            r.items@.len() == 0,
    {
        CellValues { items: Vec::new() }
    }

    /// Binds a name to a value; the newest binding wins.
    pub fn set(&mut self, name: &str, v: Fe)
        requires
            old(self).wf(),
            v.wf(),
        ensures
            final(self).wf(),
            final(self).spec_get(name@) == Some(v),
            forall|k: Seq<char>| k != name@ ==> final(self).spec_get(k) == old(self).spec_get(k),
    {
        let ghost pre = self.items@;
        let entry = (name.to_owned(), v);
        proof {
            crate::registry::lemma_alist_get_push_all(pre, entry);
        }
        self.items.push(entry);
        proof {
            assert forall|i: int| 0 <= i < self.items@.len() implies (#[trigger] self.items@[i]).1.wf() by {
                if i < pre.len() {
                    assert(self.items@[i] == pre[i]);
                }
            }
        }
    }

    /// The value bound to a name, or `None` where the name is unbound.
    pub fn get(&self, name: &String) -> (r: Option<Fe>)
        requires
            self.wf(),
        ensures
            match r {
                Some(v) => self.spec_get(name@) matches Some(w) && v.bytes@ == w.bytes@ && v.wf(),
                None => self.spec_get(name@) is None,
            },
    {
        match alist_find_index(&self.items, name.as_str()) {
            Some(i) => Some(self.items[i].1.clone()),
            None => None,
        }
    }
}

/// The value of one step of a constraint polynomial: the operator applied
/// to the named cell values, `None` where a name is unbound. An unknown
/// operator passes the first operand through.
pub open spec fn spec_item_expr(values: &CellValues, item: &AlgoItem) -> Option<nat> {
    let v1 = match values.spec_get(item.operand1.name@) {
        Some(f) => Some(f.val()),
        None => None::<nat>,
    };
    let v2 = match item.operand2 {
        Some(op2) => match values.spec_get(op2.name@) {
            Some(f) => Some(f.val()),
            None => None::<nat>,
        },
        None => None::<nat>,
    };
    if item.operator@ == "add"@ {
        match (v1, v2) {
            (Some(a), Some(b)) => Some((((a + b) as int) % (p_modulus() as int)) as nat),
            _ => None,
        }
    } else if item.operator@ == "sub"@ {
        match (v1, v2) {
            (Some(a), Some(b)) => Some(
                (((a + p_modulus() - b)) % (p_modulus() as int)) as nat,
            ),
            _ => None,
        }
    } else if item.operator@ == "mul"@ {
        match (v1, v2) {
            (Some(a), Some(b)) => Some((((a * b) as int) % (p_modulus() as int)) as nat),
            _ => None,
        }
    } else if item.operator@ == "boolean_neg"@ {
        match v1 {
            Some(a) => Some((((p_modulus() + 1 - a)) % (p_modulus() as int)) as nat),
            None => None,
        }
    } else {
        v1
    }
}

/// The whole constraint polynomial of one algorithm at witness level: the
/// chain-operator-weighted fold of its steps' values, starting from zero.
/// `None` where a name is unbound or a chain operator is unknown.
pub open spec fn spec_constraint_value(
    values: &CellValues,
    items: Seq<ChainItem>,
    k: int,
    whole: nat,
) -> Option<nat>
    decreases items.len() - k,
{
    if k < 0 || k >= items.len() {
        Some(whole)
    } else {
        match spec_item_expr(values, &items[k].item) {
            None => None,
            Some(v) => {
                let op = items[k].chain_op@;
                if op == "add"@ || op == ""@ {
                    spec_constraint_value(
                        values,
                        items,
                        k + 1,
                        (((whole + v) as int) % (p_modulus() as int)) as nat,
                    )
                } else if op == "sub"@ {
                    spec_constraint_value(
                        values,
                        items,
                        k + 1,
                        (((whole + p_modulus() - v)) % (p_modulus() as int)) as nat,
                    )
                } else if op == "mul"@ {
                    spec_constraint_value(
                        values,
                        items,
                        k + 1,
                        (((whole * v) as int) % (p_modulus() as int)) as nat,
                    )
                } else {
                    None
                }
            },
        }
    }
}

/// Evaluates one step of a constraint polynomial.
fn eval_item_expr(values: &CellValues, item: &AlgoItem) -> (r: Result<Fe, SynthesisError>)
    requires
        values.wf(),
    ensures
        r matches Ok(f) ==> f.wf() && Some(f.val()) == spec_item_expr(values, item),
        r is Err <==> spec_item_expr(values, item) is None,
{
    let v1 = values.get(&item.operand1.name);
    let v2 = match &item.operand2 {
        Some(op2) => values.get(&op2.name),
        None => None,
    };
    if string_eq_lit(&item.operator, "add") {
        match (v1, v2) {
            (Some(a), Some(b)) => Ok(fe_add(&a, &b)),
            _ => Err(SynthesisError::Synthesis),
        }
    } else if string_eq_lit(&item.operator, "sub") {
        match (v1, v2) {
            (Some(a), Some(b)) => Ok(fe_sub(&a, &b)),
            _ => Err(SynthesisError::Synthesis),
        }
    } else if string_eq_lit(&item.operator, "mul") {
        match (v1, v2) {
            (Some(a), Some(b)) => Ok(fe_mul(&a, &b)),
            _ => Err(SynthesisError::Synthesis),
        }
    } else if string_eq_lit(&item.operator, "boolean_neg") {
        match v1 {
            Some(a) => {
                let one = fe_from_u64(1);
                Ok(fe_sub(&one, &a))
            },
            None => Err(SynthesisError::Synthesis),
        }
    } else {
        match v1 {
            Some(a) => Ok(a),
            None => Err(SynthesisError::Synthesis),
        }
    }
}

/// Evaluates the whole constraint polynomial of one algorithm: the value
/// the registered gate constraint takes on the given cell values.
pub fn eval_constraint_value(values: &CellValues, algo: &Algo) -> (r: Result<Fe, SynthesisError>)
    requires
        values.wf(),
    ensures
        r matches Ok(f) ==> f.wf() && Some(f.val()) == spec_constraint_value(
            values,
            algo.items@,
            0,
            0,
        ),
        r is Err <==> spec_constraint_value(values, algo.items@, 0, 0) is None,
{
    let mut whole = fe_from_u64(0);
    let mut k: usize = 0;
    while k < algo.items.len()
        invariant
            k <= algo.items@.len(),
            values.wf(),
            whole.wf(),
            spec_constraint_value(values, algo.items@, 0, 0) == spec_constraint_value(
                values,
                algo.items@,
                k as int,
                whole.val(),
            ),
        decreases algo.items@.len() - k,
    {
        let ci = &algo.items[k];
        let v = match eval_item_expr(values, &ci.item) {
            Ok(v) => v,
            Err(e) => {
                return Err(e);
            },
        };
        if string_eq_lit(&ci.chain_op, "add") || string_eq_lit(&ci.chain_op, "") {
            whole = fe_add(&whole, &v);
        } else if string_eq_lit(&ci.chain_op, "sub") {
            whole = fe_sub(&whole, &v);
        } else if string_eq_lit(&ci.chain_op, "mul") {
            whole = fe_mul(&whole, &v);
        } else {
            return Err(SynthesisError::Synthesis);
        }
        k = k + 1;
    }
    Ok(whole)
}

/// How a constraint result reaches the public inputs: as one named input,
/// as an x and y pair, as an equality against an expected outside point, or
/// kept only as a named intermediate.
pub enum ConstraintRoute {
    Single(String),
    Dual(String, String),
    ExpectedPoint(String),
    Intermediate,
}

/// Whether a list of names carries a name.
pub open spec fn spec_names_contain(names: Seq<String>, key: Seq<char>) -> bool {
    exists|i: int| 0 <= i < names.len() && (#[trigger] names[i])@ == key
}

/// Searches a name list.
fn names_contain(names: &Vec<String>, key: &String) -> (r: bool)
    ensures
        r == spec_names_contain(names@, key@),
{
    let mut i: usize = 0;
    while i < names.len()
        invariant
            i <= names@.len(),
            forall|j: int| 0 <= j < i ==> (#[trigger] names@[j])@ != key@,
        decreases names@.len() - i,
    {
        if string_eq_lit(&names[i], key.as_str()) {
            return true;
        }
        i = i + 1;
    }
    false
}

/// Decides where a constraint's final result goes.
pub fn route_constraint(
    instance_names: &Vec<String>,
    point_names: &Vec<String>,
    name: &String,
) -> (r: ConstraintRoute)
    ensures
        r is Single <==> spec_names_contain(instance_names@, name@),
        r matches ConstraintRoute::Single(n) ==> n@ == name@,
        r is Dual <==> !spec_names_contain(instance_names@, name@) && spec_names_contain(
            instance_names@,
            name@ + "_x"@,
        ),
        r matches ConstraintRoute::Dual(x, y) ==> x@ == name@ + "_x"@ && y@ == name@ + "_y"@,
        r is ExpectedPoint <==> !spec_names_contain(instance_names@, name@)
            && !spec_names_contain(instance_names@, name@ + "_x"@) && spec_names_contain(
            point_names@,
            name@,
        ),
        r matches ConstraintRoute::ExpectedPoint(n) ==> n@ == name@,
        r is Intermediate <==> !spec_names_contain(instance_names@, name@)
            && !spec_names_contain(instance_names@, name@ + "_x"@) && !spec_names_contain(
            point_names@,
            name@,
        ),
{
    if names_contain(instance_names, name) {
        return ConstraintRoute::Single(name.clone());
    }
    let xname = name.clone().concat("_x");
    if names_contain(instance_names, &xname) {
        let yname = name.clone().concat("_y");
        return ConstraintRoute::Dual(xname, yname);
    }
    if names_contain(point_names, name) {
        return ConstraintRoute::ExpectedPoint(name.clone());
    }
    ConstraintRoute::Intermediate
}

/// Which half of a value pair a cell name declares: the base name with the
/// old flag under the old prefix, with the new flag under the new prefix,
/// and nothing otherwise.
pub open spec fn spec_value_base_name(name: Seq<char>) -> Option<(bool, Seq<char>)> {
    if name.len() >= 4 && name.take(4) == "old_"@ {
        Some((true, name.skip(4)))
    } else if name.len() >= 4 && name.take(4) == "new_"@ {
        Some((false, name.skip(4)))
    } else {
        None
    }
}

/// Splits a value cell name into its half flag and base name; `None`
/// exactly where the name carries neither value prefix.
pub fn value_base_name(name: &String) -> (r: Option<(bool, String)>)
    ensures
        match r {
            Some(p) => spec_value_base_name(name@) matches Some(q) && p.0 == q.0 && p.1@ == q.1,
            None => spec_value_base_name(name@) is None,
        },
{
    let s = name.as_str();
    let n = s.unicode_len();
    proof {
        reveal_strlit("old_");
        reveal_strlit("new_");
    }
    if n < 4 {
        return None;
    }
    let c0 = s.get_char(0);
    let c1 = s.get_char(1);
    let c2 = s.get_char(2);
    let c3 = s.get_char(3);
    let is_old = c0 == 'o' && c1 == 'l' && c2 == 'd' && c3 == '_';
    let is_new = c0 == 'n' && c1 == 'e' && c2 == 'w' && c3 == '_';
    proof {
        if is_old {
            assert(name@.take(4) =~= "old_"@);
        }
        if name@.take(4) == "old_"@ {
            assert(name@[0] == 'o' && name@[1] == 'l' && name@[2] == 'd' && name@[3] == '_') by {
                assert(name@.take(4)[0] == 'o' && name@.take(4)[1] == 'l' && name@.take(4)[2]
                    == 'd' && name@.take(4)[3] == '_');
            }
            assert(is_old);
        }
        if is_new {
            assert(name@.take(4) =~= "new_"@);
        }
        if name@.take(4) == "new_"@ {
            assert(name@[0] == 'n' && name@[1] == 'e' && name@[2] == 'w' && name@[3] == '_') by {
                assert(name@.take(4)[0] == 'n' && name@.take(4)[1] == 'e' && name@.take(4)[2]
                    == 'w' && name@.take(4)[3] == '_');
            }
            assert(is_new);
        }
        assert(is_old == (name@.take(4) == "old_"@));
        assert(is_new == (name@.take(4) == "new_"@));
    }
    if is_old || is_new {
        let base = s.substring_char(4, n);
        proof {
            assert(base@ =~= name@.skip(4));
        }
        Some((is_old, base.to_owned()))
    } else {
        None
    }
}

/// The per-gate assignment flags: a gate's region is assigned at most
/// once, whatever paths reach it.
pub struct GateStates {
    pub marked: Vec<String>,
}

impl GateStates {
    /// Whether a gate is already assigned.
    pub open spec fn spec_marked(&self, name: Seq<char>) -> bool {
        spec_names_contain(self.marked@, name)
    }

    /// No gate assigned yet.
    pub fn new() -> (r: Self)
        ensures
            forall|n: Seq<char>| !r.spec_marked(n),
    {
        GateStates { marked: Vec::new() }
    }

    /// Whether a gate is already assigned.
    pub fn is_marked(&self, name: &String) -> (r: bool)
        ensures
            r == self.spec_marked(name@),
    {
        names_contain(&self.marked, name)
    }

    /// Claims a gate for assignment: true exactly on the first claim;
    /// afterwards the flag stands either way.
    pub fn try_claim(&mut self, name: &String) -> (r: bool)
        ensures
            r == !old(self).spec_marked(name@),
            final(self).spec_marked(name@),
            forall|n: Seq<char>| n != name@ ==> final(self).spec_marked(n) == old(
                self,
            ).spec_marked(n),
    {
        if self.is_marked(name) {
            false
        } else {
            let ghost pre = self.marked@;
            self.marked.push(name.clone());
            proof {
                assert(self.marked@[pre.len() as int]@ == name@);
                assert forall|n: Seq<char>| n != name@ implies spec_names_contain(self.marked@, n)
                    == spec_names_contain(pre, n) by {
                    if spec_names_contain(self.marked@, n) {
                        let i = choose|i: int|
                            0 <= i < self.marked@.len() && (#[trigger] self.marked@[i])@ == n;
                        assert(i < pre.len() && pre[i]@ == n);
                    }
                    if spec_names_contain(pre, n) {
                        let i = choose|i: int| 0 <= i < pre.len() && (#[trigger] pre[i])@ == n;
                        assert(self.marked@[i]@ == n);
                    }
                }
            }
            true
        }
    }
}


/// The public inputs of one proof: named enable flags and named field
/// values. A flag is carried as a zero-or-one field value; on a shared
/// name the field value wins.
pub struct Instance {
    pub enables: Vec<(String, bool)>,
    pub fields: Vec<(String, Fe)>,
}

impl Instance {
    /// Every field value is canonical.
    pub open spec fn wf(&self) -> bool {
        forall|i: int| 0 <= i < self.fields@.len() ==> (#[trigger] self.fields@[i]).1.wf()
    }

    /// The value published under a name: the named field value, else the
    /// named flag as zero or one, else zero.
    pub open spec fn spec_value_of(&self, name: Seq<char>) -> nat {
        match alist_get(self.fields@, name) {
            Some(f) => f.val(),
            None => match alist_get(self.enables@, name) {
                Some(b) => if b {
                    1
                } else {
                    0
                },
                None => 0,
            },
        }
    }

    /// An empty instance.
    pub fn new() -> (r: Self)
        ensures
            r.wf(),
            r.enables@.len() == 0,
            r.fields@.len() == 0,
    {
        Instance { enables: Vec::new(), fields: Vec::new() }
    }

    /// The public-input column in the configured order: one field value per
    /// ordered name.
    pub fn to_halo2_instance(&self, order: &Vec<String>) -> (r: Vec<Fe>)
        requires
            self.wf(),
        ensures
            r@.len() == order@.len(),
            forall|i: int|
                0 <= i < order@.len() ==> (#[trigger] r@[i]).wf() && r@[i].val()
                    == self.spec_value_of(order@[i]@),
    {
        let mut out: Vec<Fe> = Vec::new();
        let mut i: usize = 0;
        while i < order.len()
            invariant
                i <= order@.len(),
                self.wf(),
                out@.len() == i,
                forall|j: int|
                    0 <= j < i ==> (#[trigger] out@[j]).wf() && out@[j].val()
                        == self.spec_value_of(order@[j]@),
            decreases order@.len() - i,
        {
            let name = &order[i];
            let v = match alist_find_index(&self.fields, name.as_str()) {
                Some(k) => self.fields[k].1.clone(),
                None => match alist_find_index(&self.enables, name.as_str()) {
                    Some(k) => {
                        if self.enables[k].1 {
                            fe_from_u64(1)
                        } else {
                            fe_from_u64(0)
                        }
                    },
                    None => fe_from_u64(0),
                },
            };
            out.push(v);
            i = i + 1;
        }
        out
    }
}


/// The position of the first part separator in an attribute, or the
/// attribute's length where there is none.
pub open spec fn spec_part_index(s: Seq<char>) -> int
    decreases s.len(),
{
    if s.len() == 0 {
        0
    } else if s[0] == '#' {
        0
    } else {
        1 + spec_part_index(s.drop_first())
    }
}

/// The part separator position is within the string, and marks the first
/// separator.
pub proof fn lemma_part_index_props(s: Seq<char>)
    ensures
        0 <= spec_part_index(s) <= s.len(),
        spec_part_index(s) < s.len() ==> s[spec_part_index(s)] == '#',
        forall|i: int| 0 <= i < spec_part_index(s) ==> s[i] != '#',
    decreases s.len(),
{
    if s.len() > 0 && s[0] != '#' {
        lemma_part_index_props(s.drop_first());
        assert forall|i: int| 0 <= i < spec_part_index(s) implies s[i] != '#' by {
            if i > 0 {
                assert(s.drop_first()[i - 1] != '#');
            }
        }
    }
}

/// Where no part separator stands before `k`, the separator index is at
/// least `k`.
proof fn lemma_part_index_unfolds(s: Seq<char>, k: int)
    requires
        0 <= k <= s.len(),
        forall|j: int| 0 <= j < k ==> s[j] != '#',
    ensures
        spec_part_index(s) >= k,
    decreases k,
{
    lemma_part_index_props(s);
    if k > 0 {
        assert(s[0] != '#');
        assert forall|j: int| 0 <= j < k - 1 implies s.drop_first()[j] != '#' by {
            assert(s[j + 1] != '#');
        }
        lemma_part_index_unfolds(s.drop_first(), k - 1);
        assert(spec_part_index(s) == 1 + spec_part_index(s.drop_first()));
    }
}

/// The position of the first part separator, executably.
fn part_index(name: &String) -> (r: usize)
    ensures
        r == spec_part_index(name@),
{
    let st = name.as_str();
    let n = st.unicode_len();
    let mut i: usize = 0;
    while i < n
        invariant
            i <= n,
            n == name@.len(),
            st@ == name@,
            forall|j: int| 0 <= j < i ==> name@[j] != '#',
        decreases n - i,
    {
        let c = st.get_char(i);
        if c == '#' {
            proof {
                lemma_part_index_unfolds(name@, i as int);
                lemma_part_index_props(name@);
                if spec_part_index(name@) > i as int {
                    assert(name@[i as int] != '#');
                }
            }
            return i;
        }
        i = i + 1;
    }
    proof {
        lemma_part_index_unfolds(name@, name@.len() as int);
        lemma_part_index_props(name@);
    }
    i
}

/// Splits a string at its first part separator: the head before it and the
/// tail after it, or `None` where there is no separator.
fn split_first_part(s: &String) -> (r: Option<(String, String)>)
    ensures
        (r is Some) <==> spec_part_index(s@) < s@.len(),
        r matches Some(p) ==> {
            &&& p.0@ == s@.take(spec_part_index(s@))
            &&& p.1@ == s@.skip(spec_part_index(s@) + 1)
        },
{
    let idx = part_index(s);
    let st = s.as_str();
    let n = st.unicode_len();
    proof {
        lemma_part_index_props(s@);
    }
    if idx >= n {
        return None;
    }
    let head = st.substring_char(0, idx).to_owned();
    let tail = st.substring_char(idx + 1, n).to_owned();
    proof {
        assert(head@ =~= s@.take(spec_part_index(s@)));
        assert(tail@ =~= s@.skip(spec_part_index(s@) + 1));
    }
    Some((head, tail))
}

/// The attribute prefix that declares a Merkle path.
pub open spec fn spec_merkle_attr_prefix() -> Seq<char> {
    "MerklePath:"@
}

/// Parses a Merkle-path attribute `MerklePath:name#domain#leaf` into the
/// path name, the tree's hash domain and the leaf's name; `None` exactly
/// where the prefix or one of the two separators is missing. Text past a
/// third separator is ignored.
pub fn parse_merkle_attr(attr: &String) -> (r: Option<(String, String, String)>)
    ensures
        (r is Some) <==> {
            let rest = attr@.skip(11);
            &&& attr@.len() >= 11
            &&& attr@.take(11) == spec_merkle_attr_prefix()
            &&& spec_part_index(rest) < rest.len()
            &&& spec_part_index(rest.skip(spec_part_index(rest) + 1)) < rest.skip(
                spec_part_index(rest) + 1,
            ).len()
        },
        r matches Some(p) ==> {
            let rest = attr@.skip(11);
            let tail = rest.skip(spec_part_index(rest) + 1);
            let tail2 = tail.skip(spec_part_index(tail) + 1);
            &&& p.0@ == rest.take(spec_part_index(rest))
            &&& p.1@ == tail.take(spec_part_index(tail))
            &&& p.2@ == tail2.take(spec_part_index(tail2))
        },
{
    let st = attr.as_str();
    let n = st.unicode_len();
    if n < 11 {
        return None;
    }
    let prefix = st.substring_char(0, 11).to_owned();
    if !string_eq_lit(&prefix, "MerklePath:") {
        proof {
            assert(prefix@ =~= attr@.take(11));
        }
        return None;
    }
    let rest = st.substring_char(11, n).to_owned();
    proof {
        assert(prefix@ =~= attr@.take(11));
        assert(rest@ =~= attr@.skip(11));
    }
    let (name, tail) = match split_first_part(&rest) {
        Some(p) => p,
        None => {
            return None;
        },
    };
    let (domain, tail2) = match split_first_part(&tail) {
        Some(p) => p,
        None => {
            return None;
        },
    };
    let leaf_end = part_index(&tail2);
    let t2 = tail2.as_str();
    proof {
        lemma_part_index_props(tail2@);
    }
    let leaf = t2.substring_char(0, leaf_end).to_owned();
    proof {
        assert(leaf@ =~= tail2@.take(spec_part_index(tail2@)));
    }
    Some((name, domain, leaf))
}


// ------------------------------------------------------------------
// The constraint polynomial as data.
// ------------------------------------------------------------------

/// A gate constraint as plain data: queries of named cells, constants, and
/// ring operations. The backend converts it to its own expression type and
/// registers it under a selector.
pub enum Poly {
    Query(String),
    Const(u64),
    Add(Box<Poly>, Box<Poly>),
    Sub(Box<Poly>, Box<Poly>),
    Mul(Box<Poly>, Box<Poly>),
}

/// The value of a constraint polynomial on a cell assignment, mod the
/// field modulus; `None` where a queried name is unbound.
pub open spec fn spec_poly_eval(p: &Poly, values: &CellValues) -> Option<nat>
    decreases p,
{
    match p {
        Poly::Query(name) => match values.spec_get(name@) {
            Some(f) => Some(f.val()),
            None => None,
        },
        Poly::Const(c) => Some(*c as nat),
        Poly::Add(a, b) => match (spec_poly_eval(a, values), spec_poly_eval(b, values)) {
            (Some(x), Some(y)) => Some((((x + y) as int) % (p_modulus() as int)) as nat),
            _ => None,
        },
        Poly::Sub(a, b) => match (spec_poly_eval(a, values), spec_poly_eval(b, values)) {
            (Some(x), Some(y)) => Some((((x + p_modulus() - y)) % (p_modulus() as int)) as nat),
            _ => None,
        },
        Poly::Mul(a, b) => match (spec_poly_eval(a, values), spec_poly_eval(b, values)) {
            (Some(x), Some(y)) => Some((((x * y) as int) % (p_modulus() as int)) as nat),
            _ => None,
        },
    }
}

/// The symbolic expression of one step: the operator over queries of its
/// operand names, with an unknown operator passing its first operand
/// through. `None` exactly where a two-operand operator lacks its second
/// operand.
pub open spec fn spec_item_poly(item: &AlgoItem) -> Option<Poly> {
    if item.operator@ == "add"@ || item.operator@ == "sub"@ || item.operator@ == "mul"@ {
        match item.operand2 {
            Some(op2) => {
                let a = Box::new(Poly::Query(item.operand1.name));
                let b = Box::new(Poly::Query(op2.name));
                if item.operator@ == "add"@ {
                    Some(Poly::Add(a, b))
                } else if item.operator@ == "sub"@ {
                    Some(Poly::Sub(a, b))
                } else {
                    Some(Poly::Mul(a, b))
                }
            },
            None => None,
        }
    } else if item.operator@ == "boolean_neg"@ {
        Some(Poly::Sub(Box::new(Poly::Const(1)), Box::new(Poly::Query(item.operand1.name))))
    } else {
        Some(Poly::Query(item.operand1.name))
    }
}

/// The symbolic constraint of an algorithm from step `k` on: each step's
/// expression folds into the running polynomial under its chain operator.
/// An error marks an unknown chain operator or a missing second operand.
pub open spec fn spec_algo_poly(items: Seq<ChainItem>, k: int, acc: Poly) -> Result<
    Poly,
    SynthesisError,
>
    decreases items.len() - k,
{
    if k < 0 || k >= items.len() {
        Ok(acc)
    } else {
        match spec_item_poly(&items[k].item) {
            None => Err(SynthesisError::Synthesis),
            Some(ip) => {
                let op = items[k].chain_op@;
                if op == "add"@ || op == ""@ {
                    spec_algo_poly(items, k + 1, Poly::Add(Box::new(acc), Box::new(ip)))
                } else if op == "sub"@ {
                    spec_algo_poly(items, k + 1, Poly::Sub(Box::new(acc), Box::new(ip)))
                } else if op == "mul"@ {
                    spec_algo_poly(items, k + 1, Poly::Mul(Box::new(acc), Box::new(ip)))
                } else {
                    Err(SynthesisError::Synthesis)
                }
            },
        }
    }
}

/// Builds the symbolic constraint the configure phase registers for one
/// algorithm, starting from the zero polynomial.
pub fn algo_constraint_poly(algo: &Algo) -> (r: Result<Poly, SynthesisError>)
    ensures
        r == spec_algo_poly(algo.items@, 0, Poly::Const(0)),
{
    let mut acc = Poly::Const(0);
    let mut k: usize = 0;
    while k < algo.items.len()
        invariant
            k <= algo.items@.len(),
            spec_algo_poly(algo.items@, 0, Poly::Const(0)) == spec_algo_poly(
                algo.items@,
                k as int,
                acc,
            ),
        decreases algo.items@.len() - k,
    {
        let ci = &algo.items[k];
        let item = &ci.item;
        let ip: Poly = if string_eq_lit(&item.operator, "add") || string_eq_lit(
            &item.operator,
            "sub",
        ) || string_eq_lit(&item.operator, "mul") {
            match &item.operand2 {
                Some(op2) => {
                    let a = Box::new(Poly::Query(item.operand1.name.clone()));
                    let b = Box::new(Poly::Query(op2.name.clone()));
                    if string_eq_lit(&item.operator, "add") {
                        Poly::Add(a, b)
                    } else if string_eq_lit(&item.operator, "sub") {
                        Poly::Sub(a, b)
                    } else {
                        Poly::Mul(a, b)
                    }
                },
                None => {
                    return Err(SynthesisError::Synthesis);
                },
            }
        } else if string_eq_lit(&item.operator, "boolean_neg") {
            Poly::Sub(
                Box::new(Poly::Const(1)),
                Box::new(Poly::Query(item.operand1.name.clone())),
            )
        } else {
            Poly::Query(item.operand1.name.clone())
        };
        proof {
            assert(spec_item_poly(&algo.items@[k as int].item) == Some(ip));
        }
        if string_eq_lit(&ci.chain_op, "add") || string_eq_lit(&ci.chain_op, "") {
            acc = Poly::Add(Box::new(acc), Box::new(ip));
        } else if string_eq_lit(&ci.chain_op, "sub") {
            acc = Poly::Sub(Box::new(acc), Box::new(ip));
        } else if string_eq_lit(&ci.chain_op, "mul") {
            acc = Poly::Mul(Box::new(acc), Box::new(ip));
        } else {
            return Err(SynthesisError::Synthesis);
        }
        k = k + 1;
    }
    Ok(acc)
}


/// A polynomial whose running part has no value keeps having none as steps
/// fold in.
proof fn lemma_poly_fold_none(items: Seq<ChainItem>, k: int, acc: Poly, values: &CellValues)
    requires
        spec_algo_poly(items, k, acc) is Ok,
        spec_poly_eval(&acc, values) is None,
    ensures
        spec_algo_poly(items, k, acc) matches Ok(p) ==> spec_poly_eval(&p, values) is None,
    decreases items.len() - k,
{
    if 0 <= k < items.len() {
        let ip = spec_item_poly(&items[k].item)->0;
        let op = items[k].chain_op@;
        let newacc = if op == "add"@ || op == ""@ {
            Poly::Add(Box::new(acc), Box::new(ip))
        } else if op == "sub"@ {
            Poly::Sub(Box::new(acc), Box::new(ip))
        } else {
            Poly::Mul(Box::new(acc), Box::new(ip))
        };
        lemma_poly_fold_none(items, k + 1, newacc, values);
    }
}

/// Each accepted step's expression evaluates to the step's witness value.
proof fn lemma_item_poly_eval(item: &AlgoItem, values: &CellValues)
    requires
        spec_item_poly(item) is Some,
    ensures
        spec_poly_eval(&spec_item_poly(item)->0, values) == spec_item_expr(values, item),
{
    let qa = Poly::Query(item.operand1.name);
    assert(spec_poly_eval(&qa, values) == match values.spec_get(item.operand1.name@) {
        Some(f) => Some(f.val()),
        None => None::<nat>,
    });
    if item.operator@ == "add"@ || item.operator@ == "sub"@ || item.operator@ == "mul"@ {
        let op2 = item.operand2->0;
        let qb = Poly::Query(op2.name);
        assert(spec_poly_eval(&qb, values) == match values.spec_get(op2.name@) {
            Some(f) => Some(f.val()),
            None => None::<nat>,
        });
    } else if item.operator@ == "boolean_neg"@ {
        let c1 = Poly::Const(1);
        assert(spec_poly_eval(&c1, values) == Some(1nat));
    }
}

/// From step `k` on, with a running polynomial worth `w`, the folded
/// polynomial evaluates to the witness-level fold from `w`.
proof fn lemma_constraint_poly_fold(
    items: Seq<ChainItem>,
    k: int,
    acc: Poly,
    w: nat,
    values: &CellValues,
)
    requires
        0 <= k,
        spec_algo_poly(items, k, acc) is Ok,
        spec_poly_eval(&acc, values) == Some(w),
    ensures
        spec_algo_poly(items, k, acc) matches Ok(p) ==> spec_poly_eval(&p, values)
            == spec_constraint_value(values, items, k, w),
    decreases items.len() - k,
{
    if k < items.len() {
        let ip = spec_item_poly(&items[k].item)->0;
        lemma_item_poly_eval(&items[k].item, values);
        let op = items[k].chain_op@;
        let newacc = if op == "add"@ || op == ""@ {
            Poly::Add(Box::new(acc), Box::new(ip))
        } else if op == "sub"@ {
            Poly::Sub(Box::new(acc), Box::new(ip))
        } else {
            Poly::Mul(Box::new(acc), Box::new(ip))
        };
        match spec_item_expr(values, &items[k].item) {
            None => {
                lemma_poly_fold_none(items, k + 1, newacc, values);
            },
            Some(v) => {
                let w2: nat = if op == "add"@ || op == ""@ {
                    (((w + v) as int) % (p_modulus() as int)) as nat
                } else if op == "sub"@ {
                    (((w + p_modulus() - v)) % (p_modulus() as int)) as nat
                } else {
                    (((w * v) as int) % (p_modulus() as int)) as nat
                };
                lemma_constraint_poly_fold(items, k + 1, newacc, w2, values);
            },
        }
    }
}

/// The constraint law: the symbolic polynomial registered for an algorithm
/// evaluates, on every cell assignment, to the witness-level fold of that
/// algorithm's steps.
pub proof fn lemma_algo_poly_evaluates(algo: &Algo, values: &CellValues)
    requires
        spec_algo_poly(algo.items@, 0, Poly::Const(0)) is Ok,
    ensures
        spec_algo_poly(algo.items@, 0, Poly::Const(0)) matches Ok(p) ==> spec_poly_eval(
            &p,
            values,
        ) == spec_constraint_value(values, algo.items@, 0, 0),
{
    assert(spec_poly_eval(&Poly::Const(0), values) == Some(0nat));
    lemma_constraint_poly_fold(algo.items@, 0, Poly::Const(0), 0, values);
}


/// The constraints the configure phase registers for one gate: the
/// symbolic polynomial of each algorithm aligned with it; an error names a
/// misconfigured algorithm.
pub fn gate_constraints(algos: &Vec<Algo>) -> (r: Result<Vec<Poly>, SynthesisError>)
    ensures
        r matches Ok(ps) ==> ps@.len() == algos@.len() && forall|i: int|
            0 <= i < algos@.len() ==> Ok::<Poly, SynthesisError>(#[trigger] ps@[i])
                == spec_algo_poly(algos@[i].items@, 0, Poly::Const(0)),
        r is Err ==> exists|i: int|
            0 <= i < algos@.len() && spec_algo_poly((#[trigger] algos@[i]).items@, 0, Poly::Const(0))
                is Err,
{
    let mut out: Vec<Poly> = Vec::new();
    let mut i: usize = 0;
    while i < algos.len()
        invariant
            i <= algos@.len(),
            out@.len() == i,
            forall|j: int|
                0 <= j < i ==> Ok::<Poly, SynthesisError>(#[trigger] out@[j]) == spec_algo_poly(
                    algos@[j].items@,
                    0,
                    Poly::Const(0),
                ),
        decreases algos@.len() - i,
    {
        match algo_constraint_poly(&algos[i]) {
            Ok(p) => {
                out.push(p);
            },
            Err(e) => {
                return Err(e);
            },
        }
        i = i + 1;
    }
    Ok(out)
}


// ------------------------------------------------------------------
// The synthesize-phase plan.
// ------------------------------------------------------------------

/// One synthesize-phase action, in the order the backend loop performs
/// them: witness the declared inputs, fold the declared paths, evaluate the
/// pre-commitment constraints, run the declared commitments, evaluate the
/// post-commitment constraints, and default-assign every unclaimed gate.
pub enum SynthStep {
    WitnessField(String),
    WitnessValuePair(String),
    WitnessPoint(String),
    WitnessNonIdentityPoint(String),
    MerkleRoot(String),
    EvaluateConstraint(usize),
    RunCommitment(usize),
    EvaluateCommitConstraint(usize),
    DefaultAssignGate(usize),
}

/// One witness or fold step per named thing of one kind.
pub open spec fn spec_name_steps(names: Seq<String>, k: int, kind: int) -> Seq<SynthStep>
    decreases names.len() - k,
{
    if k < 0 || k >= names.len() {
        Seq::empty()
    } else {
        let step = if kind == 0 {
            SynthStep::WitnessField(names[k])
        } else if kind == 1 {
            SynthStep::WitnessValuePair(names[k])
        } else if kind == 2 {
            SynthStep::WitnessPoint(names[k])
        } else if kind == 3 {
            SynthStep::WitnessNonIdentityPoint(names[k])
        } else {
            SynthStep::MerkleRoot(names[k])
        };
        seq![step] + spec_name_steps(names, k + 1, kind)
    }
}

/// One evaluation step per algorithm carrying the given tag.
pub open spec fn spec_constraint_steps(
    algos: Seq<Algo>,
    k: int,
    tag: Seq<char>,
    after_commit: bool,
) -> Seq<SynthStep>
    decreases algos.len() - k,
{
    if k < 0 || k >= algos.len() {
        Seq::empty()
    } else {
        let here: Seq<SynthStep> = if algos[k].name@ == tag {
            if after_commit {
                seq![SynthStep::EvaluateCommitConstraint(k as usize)]
            } else {
                seq![SynthStep::EvaluateConstraint(k as usize)]
            }
        } else {
            Seq::empty()
        };
        here + spec_constraint_steps(algos, k + 1, tag, after_commit)
    }
}

/// One step per index of a counted kind: a commitment run or a default
/// gate assignment.
pub open spec fn spec_index_steps(n: int, k: int, commit: bool) -> Seq<SynthStep>
    decreases n - k,
{
    if k < 0 || k >= n {
        Seq::empty()
    } else {
        seq![
            if commit {
                SynthStep::RunCommitment(k as usize)
            } else {
                SynthStep::DefaultAssignGate(k as usize)
            },
        ] + spec_index_steps(n, k + 1, commit)
    }
}

/// The whole synthesize-phase plan, in order: plain fields, value pairs
/// with their magnitude and sign, points, non-identity points, path folds,
/// pre-commitment constraints, commitments, post-commitment constraints,
/// and the default assignment of every gate nobody claimed earlier.
pub open spec fn spec_synthesize_plan(
    fields: Seq<String>,
    value_pairs: Seq<String>,
    points: Seq<String>,
    nipoints: Seq<String>,
    paths: Seq<String>,
    algos: Seq<Algo>,
    num_commits: int,
    num_gates: int,
) -> Seq<SynthStep> {
    spec_name_steps(fields, 0, 0) + spec_name_steps(value_pairs, 0, 1) + spec_name_steps(
        points,
        0,
        2,
    ) + spec_name_steps(nipoints, 0, 3) + spec_name_steps(paths, 0, 4) + spec_constraint_steps(
        algos,
        0,
        "constraint"@,
        false,
    ) + spec_index_steps(num_commits, 0, true) + spec_constraint_steps(
        algos,
        0,
        "constraint-commit"@,
        true,
    ) + spec_index_steps(num_gates, 0, false)
}

/// Emits the witness steps of one kind.
fn push_name_steps(out: &mut Vec<SynthStep>, names: &Vec<String>, kind: u8)
    requires
        kind < 5,
    ensures
        final(out)@ =~= old(out)@ + spec_name_steps(names@, 0, kind as int),
{
    let mut i: usize = 0;
    proof {
        lemma_name_steps_len(names@, 0, kind as int);
    }
    while i < names.len()
        invariant
            i <= names@.len(),
            kind < 5,
            out@ =~= old(out)@ + spec_name_steps(names@, 0, kind as int).take(i as int),
            spec_name_steps(names@, 0, kind as int).len() == names@.len(),
        decreases names@.len() - i,
    {
        proof {
            lemma_name_steps_index(names@, 0, kind as int, i as int);
        }
        let step = if kind == 0 {
            SynthStep::WitnessField(names[i].clone())
        } else if kind == 1 {
            SynthStep::WitnessValuePair(names[i].clone())
        } else if kind == 2 {
            SynthStep::WitnessPoint(names[i].clone())
        } else if kind == 3 {
            SynthStep::WitnessNonIdentityPoint(names[i].clone())
        } else {
            SynthStep::MerkleRoot(names[i].clone())
        };
        out.push(step);
        i = i + 1;
    }
    proof {
        assert(spec_name_steps(names@, 0, kind as int).take(names@.len() as int)
            =~= spec_name_steps(names@, 0, kind as int));
    }
}

/// The name steps line up with the names.
proof fn lemma_name_steps_index(names: Seq<String>, k: int, kind: int, j: int)
    requires
        0 <= k <= j < names.len(),
    ensures
        spec_name_steps(names, k, kind).len() == names.len() - k,
        spec_name_steps(names, k, kind)[j - k] == spec_name_steps(names, j, kind)[0],
        spec_name_steps(names, j, kind).len() == names.len() - j,
    decreases j - k,
{
    if k < j {
        lemma_name_steps_index(names, k + 1, kind, j);
    } else {
        lemma_name_steps_len(names, k, kind);
    }
}

/// The name steps count the names.
proof fn lemma_name_steps_len(names: Seq<String>, k: int, kind: int)
    requires
        0 <= k <= names.len(),
    ensures
        spec_name_steps(names, k, kind).len() == names.len() - k,
    decreases names.len() - k,
{
    if k < names.len() {
        lemma_name_steps_len(names, k + 1, kind);
    }
}

/// Builds the synthesize-phase plan of one circuit instance: every step of
/// the synthesize order as data, for the backend loop to perform.
pub fn synthesize_plan(
    fields: &Vec<String>,
    value_pairs: &Vec<String>,
    points: &Vec<String>,
    nipoints: &Vec<String>,
    paths: &Vec<String>,
    algos: &Vec<Algo>,
    num_commits: usize,
    num_gates: usize,
) -> (r: Vec<SynthStep>)
    ensures
        r@ =~= spec_synthesize_plan(
            fields@,
            value_pairs@,
            points@,
            nipoints@,
            paths@,
            algos@,
            num_commits as int,
            num_gates as int,
        ),
{
    let mut out: Vec<SynthStep> = Vec::new();
    push_name_steps(&mut out, fields, 0);
    push_name_steps(&mut out, value_pairs, 1);
    push_name_steps(&mut out, points, 2);
    push_name_steps(&mut out, nipoints, 3);
    push_name_steps(&mut out, paths, 4);
    let ghost base1 = out@;
    let mut i: usize = 0;
    while i < algos.len()
        invariant
            i <= algos@.len(),
            out@ + spec_constraint_steps(algos@, i as int, "constraint"@, false) =~= base1
                + spec_constraint_steps(algos@, 0, "constraint"@, false),
        decreases algos@.len() - i,
    {
        if string_eq_lit(&algos[i].name, "constraint") {
            out.push(SynthStep::EvaluateConstraint(i));
        }
        proof {
            assert(spec_constraint_steps(algos@, i as int, "constraint"@, false)
                =~= (if algos@[i as int].name@ == "constraint"@ {
                seq![SynthStep::EvaluateConstraint(i)]
            } else {
                Seq::empty()
            }) + spec_constraint_steps(algos@, i as int + 1, "constraint"@, false));
        }
        i = i + 1;
    }
    proof {
        assert(spec_constraint_steps(algos@, algos@.len() as int, "constraint"@, false)
            =~= Seq::<SynthStep>::empty());
        assert(out@ =~= base1 + spec_constraint_steps(algos@, 0, "constraint"@, false));
    }
    let ghost base2 = out@;
    let mut c: usize = 0;
    while c < num_commits
        invariant
            c <= num_commits,
            out@ + spec_index_steps(num_commits as int, c as int, true) =~= base2
                + spec_index_steps(num_commits as int, 0, true),
        decreases num_commits - c,
    {
        out.push(SynthStep::RunCommitment(c));
        proof {
            assert(spec_index_steps(num_commits as int, c as int, true) =~= seq![
                SynthStep::RunCommitment(c),
            ] + spec_index_steps(num_commits as int, c as int + 1, true));
        }
        c = c + 1;
    }
    proof {
        assert(spec_index_steps(num_commits as int, num_commits as int, true)
            =~= Seq::<SynthStep>::empty());
        assert(out@ =~= base2 + spec_index_steps(num_commits as int, 0, true));
    }
    let ghost base3 = out@;
    let mut k: usize = 0;
    while k < algos.len()
        invariant
            k <= algos@.len(),
            out@ + spec_constraint_steps(algos@, k as int, "constraint-commit"@, true) =~= base3
                + spec_constraint_steps(algos@, 0, "constraint-commit"@, true),
        decreases algos@.len() - k,
    {
        if string_eq_lit(&algos[k].name, "constraint-commit") {
            out.push(SynthStep::EvaluateCommitConstraint(k));
        }
        proof {
            assert(spec_constraint_steps(algos@, k as int, "constraint-commit"@, true)
                =~= (if algos@[k as int].name@ == "constraint-commit"@ {
                seq![SynthStep::EvaluateCommitConstraint(k)]
            } else {
                Seq::empty()
            }) + spec_constraint_steps(algos@, k as int + 1, "constraint-commit"@, true));
        }
        k = k + 1;
    }
    proof {
        assert(spec_constraint_steps(algos@, algos@.len() as int, "constraint-commit"@, true)
            =~= Seq::<SynthStep>::empty());
        assert(out@ =~= base3 + spec_constraint_steps(algos@, 0, "constraint-commit"@, true));
    }
    let ghost base4 = out@;
    let mut g: usize = 0;
    while g < num_gates
        invariant
            g <= num_gates,
            out@ + spec_index_steps(num_gates as int, g as int, false) =~= base4
                + spec_index_steps(num_gates as int, 0, false),
        decreases num_gates - g,
    {
        out.push(SynthStep::DefaultAssignGate(g));
        proof {
            assert(spec_index_steps(num_gates as int, g as int, false) =~= seq![
                SynthStep::DefaultAssignGate(g),
            ] + spec_index_steps(num_gates as int, g as int + 1, false));
        }
        g = g + 1;
    }
    proof {
        assert(spec_index_steps(num_gates as int, num_gates as int, false)
            =~= Seq::<SynthStep>::empty());
        assert(out@ =~= base4 + spec_index_steps(num_gates as int, 0, false));
    }
    out
}

} // verus!
