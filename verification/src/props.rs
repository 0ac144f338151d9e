//! The property store: a per-device mapping from property name to a
//! typed, permission-guarded value.
//!
//! Names are unique; lookups are by name and never panic on an absent
//! name.  A property's type never changes after creation: only its
//! value mutates, always to a value of the same type.

use vstd::prelude::*;
use vstd::slice::slice_index_get;
use crate::numtext::str_eq;

verus! {

/// Who may write a property: the polling loop and the driver always
/// may; clients only when it is `ReadWrite`.
#[derive(Clone, Copy, Debug, PartialEq, Eq, Structural)]
pub enum Permission {
    ReadOnly,
    ReadWrite,
}

/// The display class a property advertises to clients.  Values the
/// hardware reports as floating point (pixel size, electrons per ADU)
/// are carried as already-rendered text and tagged `Float`.
#[derive(Clone, Copy, Debug, PartialEq, Eq, Structural)]
pub enum PropKind {
    Integer,
    Float,
    Boolean,
    Text,
    Array,
    Bytes,
}

/// Where a client write to a property lands on the hardware.
#[derive(Clone, Copy, Debug, PartialEq, Eq, Structural)]
pub enum HwTarget {
    /// A control value, by its vendor control id.
    Control(i32),
    /// The cached region-of-interest width.
    RoiWidth,
    /// The cached region-of-interest height.
    RoiHeight,
    /// The filter wheel slot.
    Position,
    /// The filter wheel direction flag.
    Unidirection,
    /// No hardware behind it: the store alone holds it.
    Internal,
}

/// A typed scalar value.
#[derive(Clone, Debug)]
pub enum PropValue {
    Int(i64),
    Bool(bool),
    Text(String),
}

/// The mathematical value of a [`PropValue`].
pub ghost enum ValueModel {
    Int(int),
    Bool(bool),
    Text(Seq<char>),
}

impl View for PropValue {
    type V = ValueModel;

    open spec fn view(&self) -> ValueModel {
        match self {
            PropValue::Int(n) => ValueModel::Int(*n as int),
            PropValue::Bool(b) => ValueModel::Bool(*b),
            PropValue::Text(s) => ValueModel::Text(s@),
        }
    }
}

/// One named property of a device.
#[derive(Debug)]
pub struct Property {
    pub name: String,
    pub value: PropValue,
    pub kind: PropKind,
    pub permission: Permission,
    /// Inclusive bounds a client-written integer must respect.
    pub bounds: Option<(i64, i64)>,
    pub target: HwTarget,
}

/// The mathematical value of a [`Property`].
pub ghost struct PropModel {
    pub name: Seq<char>,
    pub value: ValueModel,
    pub kind: PropKind,
    pub permission: Permission,
    pub bounds: Option<(int, int)>,
    pub target: HwTarget,
}

impl View for Property {
    type V = PropModel;

    open spec fn view(&self) -> PropModel {
        PropModel {
            name: self.name@,
            value: self.value@,
            kind: self.kind,
            permission: self.permission,
            bounds: match self.bounds {
                Some((lo, hi)) => Some((lo as int, hi as int)),
                None => None,
            },
            target: self.target,
        }
    }
}

impl PropModel {
    /// A property is well formed when its display class agrees with
    /// its value's type and bounds only adorn integers.
    pub open spec fn wf(self) -> bool {
        &&& (self.value is Int <==> self.kind == PropKind::Integer)
        &&& (self.value is Bool <==> self.kind == PropKind::Boolean)
        &&& (self.bounds is Some ==> self.value is Int)
    }
}

/// Build a property a client may only read.
pub fn new_read_only_prop(name: &str, value: PropValue, kind: PropKind) -> (r: Property)
    ensures
        r@ == (PropModel {
            name: name@,
            value: value@,
            kind: kind,
            permission: Permission::ReadOnly,
            bounds: None,
            target: HwTarget::Internal,
        }),
{
    Property {
        name: name.to_owned(),
        value,
        kind,
        permission: Permission::ReadOnly,
        bounds: None,
        target: HwTarget::Internal,
    }
}

/// Build a property a client may also write.
pub fn new_read_write_prop(name: &str, value: PropValue, kind: PropKind) -> (r: Property)
    ensures
        r@ == (PropModel {
            name: name@,
            value: value@,
            kind: kind,
            permission: Permission::ReadWrite,
            bounds: None,
            target: HwTarget::Internal,
        }),
{
    Property {
        name: name.to_owned(),
        value,
        kind,
        permission: Permission::ReadWrite,
        bounds: None,
        target: HwTarget::Internal,
    }
}

/// The index of the first property with the given name.
pub open spec fn spec_find(s: Seq<PropModel>, name: Seq<char>) -> Option<int>
    decreases s.len(),
{
    if s.len() == 0 {
        None
    } else if s[0].name == name {
        Some(0)
    } else {
        match spec_find(s.drop_first(), name) {
            Some(i) => Some(i + 1),
            None => None,
        }
    }
}

/// What a successful lookup means: the index is in range, it carries
/// the name, and no earlier index does.
pub proof fn lemma_spec_find_found(s: Seq<PropModel>, name: Seq<char>)
    ensures
        match spec_find(s, name) {
            Some(i) => 0 <= i < s.len() && s[i].name == name && forall|j: int|
                0 <= j < i ==> (#[trigger] s[j]).name != name,
            None => forall|j: int| 0 <= j < s.len() ==> (#[trigger] s[j]).name != name,
        },
    decreases s.len(),
{
    if s.len() > 0 && s[0].name != name {
        lemma_spec_find_found(s.drop_first(), name);
        match spec_find(s.drop_first(), name) {
            Some(i) => {
                assert(s.drop_first()[i] == s[i + 1]);
                assert forall|j: int| 0 <= j < i + 1 implies (#[trigger] s[j]).name != name by {
                    if j > 0 {
                        assert(s.drop_first()[j - 1] == s[j]);
                    }
                }
            },
            None => {
                assert forall|j: int| 0 <= j < s.len() implies (#[trigger] s[j]).name != name by {
                    if j > 0 {
                        assert(s.drop_first()[j - 1] == s[j]);
                    }
                }
            },
        }
    }
}

/// The converse: a witness index with the name, all earlier ones
/// without it, pins the lookup.
pub proof fn lemma_spec_find_at(s: Seq<PropModel>, name: Seq<char>, k: int)
    requires
        0 <= k <= s.len(),
        forall|j: int| 0 <= j < k ==> (#[trigger] s[j]).name != name,
        k == s.len() || s[k].name == name,
    ensures
        spec_find(s, name) == if k == s.len() {
            Option::<int>::None
        } else {
            Option::<int>::Some(k)
        },
    decreases s.len(),
{
    if s.len() > 0 && s[0].name != name {
        assert(forall|j: int|
            0 <= j < s.drop_first().len() ==> #[trigger] s.drop_first()[j] == s[j + 1]);
        lemma_spec_find_at(s.drop_first(), name, k - 1);
    }
}

/// A lookup sees only names, so stores that agree on names agree on
/// lookups.
pub proof fn lemma_spec_find_same_names(s1: Seq<PropModel>, s2: Seq<PropModel>, name: Seq<char>)
    requires
        s1.len() == s2.len(),
        forall|i: int| 0 <= i < s1.len() ==> (#[trigger] s1[i]).name == s2[i].name,
    ensures
        spec_find(s1, name) == spec_find(s2, name),
    decreases s1.len(),
{
    if s1.len() > 0 {
        assert(forall|j: int| 0 <= j < s1.drop_first().len() ==> #[trigger] s1.drop_first()[j]
            == s1[j + 1] && s2.drop_first()[j] == s2[j + 1]);
        lemma_spec_find_same_names(s1.drop_first(), s2.drop_first(), name);
    }
}

/// No two properties share a name.
pub open spec fn names_unique(s: Seq<PropModel>) -> bool {
    forall|i: int, j: int| 0 <= i < j < s.len() ==> (#[trigger] s[i]).name != (#[trigger] s[j]).name
}

/// The per-device store of properties.  Insertion order is kept, names
/// are unique, and every entry is well formed.
#[derive(Debug)]
pub struct PropertyStore {
    props: Vec<Property>,
}

impl View for PropertyStore {
    type V = Seq<PropModel>;

    closed spec fn view(&self) -> Seq<PropModel> {
        Seq::new(self.props@.len(), |i: int| self.props@[i]@)
    }
}

impl PropertyStore {
    /// The store's invariant: unique names, well-formed entries.
    pub open spec fn wf(self) -> bool {
        &&& names_unique(self@)
        &&& forall|i: int| 0 <= i < self@.len() ==> (#[trigger] self@[i]).wf()
    }

    /// An empty store.
    pub fn new() -> (r: PropertyStore)
        ensures
            r@ =~= Seq::<PropModel>::empty(),
            r.wf(),
    {
        PropertyStore { props: Vec::new() }
    }

    pub fn len(&self) -> (r: usize)
        ensures
            r == self@.len(),
    {
        self.props.len()
    }

    /// Read the property at an index.
    pub fn get_at(&self, i: usize) -> (r: &Property)
        requires
            i < self@.len(),
        ensures
            r@ == self@[i as int],
    {
        &self.props[i]
    }

    /// The index of a property, by name; `None` when the name is
    /// unknown.
    pub fn find_property_index(&self, prop_name: &str) -> (r: Option<usize>)
        ensures
            match r {
                Some(i) => spec_find(self@, prop_name@) == Some(i as int) && i < self@.len()
                    && self@[i as int].name == prop_name@,
                None => spec_find(self@, prop_name@) is None,
            },
    {
        let n: usize = self.props.len();
        let mut i: usize = 0;
        while i < n
            invariant
                0 <= i <= n,
                n == self@.len(),
                forall|j: int| 0 <= j < i ==> (#[trigger] self@[j]).name != prop_name@,
            decreases n - i,
        {
            if str_eq(self.props[i].name.as_str(), prop_name) {
                proof {
                    lemma_spec_find_at(self@, prop_name@, i as int);
                }
                return Some(i);
            }
            i = i + 1;
        }
        proof {
            lemma_spec_find_at(self@, prop_name@, n as int);
        }
        None
    }

    /// Add a property; refused (and the store unchanged) when the name
    /// is already present.
    pub fn add(&mut self, p: Property) -> (r: bool)
        requires
            old(self).wf(),
            p@.wf(),
        ensures
            final(self).wf(),
            r == (spec_find(old(self)@, p@.name) is None),
            r ==> final(self)@ == old(self)@.push(p@),
            !r ==> final(self)@ == old(self)@,
            forall|n: Seq<char>| #[trigger] spec_find(final(self)@, n) == (if spec_find(
                old(self)@,
                n,
            ) is Some {
                spec_find(old(self)@, n)
            } else if r && n == p@.name {
                Some(old(self)@.len() as int)
            } else {
                None
            }),
    {
        match self.find_property_index(p.name.as_str()) {
            Some(_) => {
                proof {
                    assert(forall|n: Seq<char>| spec_find(self@, n) == spec_find(old(self)@, n));
                }
                false
            },
            None => {
                proof {
                    lemma_spec_find_found(self@, p@.name);
                }
                self.props.push(p);
                proof {
                    assert(self@ =~= old(self)@.push(p@));
                    assert(forall|j: int| 0 <= j < old(self)@.len() ==> #[trigger] self@[j] == old(
                        self,
                    )@[j]);
                    assert forall|n: Seq<char>| #[trigger] spec_find(self@, n) == (if spec_find(
                        old(self)@,
                        n,
                    ) is Some {
                        spec_find(old(self)@, n)
                    } else if n == p@.name {
                        Some(old(self)@.len() as int)
                    } else {
                        None
                    }) by {
                        lemma_spec_find_found(old(self)@, n);
                        match spec_find(old(self)@, n) {
                            Some(i) => {
                                lemma_spec_find_at(self@, n, i);
                            },
                            None => {
                                if n == p@.name {
                                    lemma_spec_find_at(self@, n, old(self)@.len() as int);
                                } else {
                                    lemma_spec_find_at(self@, n, self@.len() as int);
                                }
                            },
                        }
                    }
                }
                true
            },
        }
    }

    /// Overwrite the value at an index with one of the same type.
    pub fn set_value_at(&mut self, i: usize, v: PropValue)
        requires
            old(self).wf(),
            i < old(self)@.len(),
            match (old(self)@[i as int].value, v@) {
                (ValueModel::Int(_), ValueModel::Int(_)) => true,
                (ValueModel::Bool(_), ValueModel::Bool(_)) => true,
                (ValueModel::Text(_), ValueModel::Text(_)) => true,
                _ => false,
            },
        ensures
            final(self).wf(),
            final(self)@ == old(self)@.update(
                i as int,
                PropModel { value: v@, ..old(self)@[i as int] },
            ),
            forall|n: Seq<char>| #[trigger] spec_find(final(self)@, n) == spec_find(old(self)@, n),
    {
        let name = self.props[i].name.clone();
        let kind = self.props[i].kind;
        let permission = self.props[i].permission;
        let bounds = self.props[i].bounds;
        let target = self.props[i].target;
        let p = Property { name, value: v, kind, permission, bounds, target };
        self.props[i] = p;
        proof {
            assert(self@ =~= old(self)@.update(
                i as int,
                PropModel { value: v@, ..old(self)@[i as int] },
            ));
            assert(forall|j: int|
                0 <= j < self@.len() && j != i ==> #[trigger] self@[j] == old(self)@[j]);
            assert forall|n: Seq<char>| #[trigger] spec_find(self@, n) == spec_find(
                old(self)@,
                n,
            ) by {
                assert(forall|j: int|
                    0 <= j < self@.len() ==> (#[trigger] self@[j]).name == old(self)@[j].name);
                lemma_spec_find_same_names(self@, old(self)@, n);
            }
        }
    }
}

} // verus!
