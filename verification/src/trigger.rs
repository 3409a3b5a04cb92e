//! The per-object event-trigger registry.
//!
//! A [`TriggerTarget`] describes the downstream invocation to fire when a
//! source event occurs.  An [`ObjectEvent`] records, per source function
//! id and per source field key, the ordered lists of targets to fire for
//! each event kind.  Every list is a set under structural equality:
//! insertion order is preserved, duplicates are rejected.

use vstd::prelude::*;
use crate::str_map::StrMap;

verus! {

/// The events of a source function that can fire triggers.
#[derive(Clone, Copy, PartialEq, Eq, Structural, Debug)]
pub enum FnTriggerType {
    OnComplete,
    OnError,
}

/// The lifecycle events of a source data field that can fire triggers.
#[derive(Clone, Copy, PartialEq, Eq, Structural, Debug)]
pub enum DataTriggerType {
    OnCreate,
    OnUpdate,
    OnDelete,
}

impl DataTriggerType {
    /// The printable name of the event kind.
    pub fn label(&self) -> (r: &'static str)
        ensures
            *self == DataTriggerType::OnCreate ==> r@ == "OnCreate"@,
            *self == DataTriggerType::OnUpdate ==> r@ == "OnUpdate"@,
            *self == DataTriggerType::OnDelete ==> r@ == "OnDelete"@,
    {
        match self {
            DataTriggerType::OnCreate => "OnCreate",
            DataTriggerType::OnUpdate => "OnUpdate",
            DataTriggerType::OnDelete => "OnDelete",
        }
    }
}

/// Mathematical value of a [`TriggerTarget`].
#[verifier::ext_equal]
pub ghost struct TriggerTargetV {
    pub cls_id: Seq<char>,
    pub partition_id: u32,
    pub fn_id: Seq<char>,
    pub object_id: Option<u64>,
    pub req_options: Map<Seq<char>, Seq<char>>,
}

/// A descriptor of "what to invoke next": class, partition and function,
/// an optional object identity, and request options.  `object_id == None`
/// addresses the object that owns the registry; the registry itself does
/// not resolve it.  Equality is structural over all fields.
pub struct TriggerTarget {
    cls_id: String,
    partition_id: u32,
    fn_id: String,
    object_id: Option<u64>,
    req_options: StrMap,
}

impl View for TriggerTarget {
    type V = TriggerTargetV;

    closed spec fn view(&self) -> TriggerTargetV {
        TriggerTargetV {
            cls_id: self.cls_id@,
            partition_id: self.partition_id,
            fn_id: self.fn_id@,
            object_id: self.object_id,
            req_options: self.req_options@,
        }
    }
}

impl TriggerTarget {
    /// The stored option map has distinct keys.
    pub closed spec fn wf(self) -> bool {
        self.req_options.wf()
    }

    /// Creates a new target.
    pub fn new(
        cls_id: String,
        partition_id: u32,
        fn_id: String,
        object_id: Option<u64>,
        req_options: StrMap,
    ) -> (r: Self)
        requires
            req_options.wf(),
        ensures
            r.wf(),
            r@ == (TriggerTargetV {
                cls_id: cls_id@,
                partition_id: partition_id,
                fn_id: fn_id@,
                object_id: object_id,
                req_options: req_options@,
            }),
    {
        TriggerTarget { cls_id, partition_id, fn_id, object_id, req_options }
    }

    /// Gets the class id.
    pub fn get_cls_id(&self) -> (r: String)
        ensures
            r@ == self@.cls_id,
    {
        self.cls_id.clone()
    }

    /// Sets the class id.
    pub fn set_cls_id(&mut self, cls_id: String)
        ensures
            final(self)@ == (TriggerTargetV { cls_id: cls_id@, ..old(self)@ }),
            final(self).wf() == old(self).wf(),
    {
        self.cls_id = cls_id;
    }

    /// Gets the partition id.
    pub fn get_partition_id(&self) -> (r: u32)
        ensures
            r == self@.partition_id,
    {
        self.partition_id
    }

    /// Sets the partition id.
    pub fn set_partition_id(&mut self, partition_id: u32)
        ensures
            final(self)@ == (TriggerTargetV { partition_id: partition_id, ..old(self)@ }),
            final(self).wf() == old(self).wf(),
    {
        self.partition_id = partition_id;
    }

    /// Gets the function id.
    pub fn get_fn_id(&self) -> (r: String)
        ensures
            r@ == self@.fn_id,
    {
        self.fn_id.clone()
    }

    /// Sets the function id.
    pub fn set_fn_id(&mut self, fn_id: String)
        ensures
            final(self)@ == (TriggerTargetV { fn_id: fn_id@, ..old(self)@ }),
            final(self).wf() == old(self).wf(),
    {
        self.fn_id = fn_id;
    }

    /// Gets the object id, if any.
    pub fn get_object_id(&self) -> (r: Option<u64>)
        ensures
            r == self@.object_id,
    {
        self.object_id
    }

    /// Sets the object id.
    pub fn set_object_id(&mut self, object_id: Option<u64>)
        ensures
            final(self)@ == (TriggerTargetV { object_id: object_id, ..old(self)@ }),
            final(self).wf() == old(self).wf(),
    {
        self.object_id = object_id;
    }

    /// Gets a copy of the request options.
    pub fn get_req_options(&self) -> (r: StrMap)
        ensures
            r@ == self@.req_options,
            r.wf() == self.wf(),
    {
        self.req_options.duplicate()
    }

    /// Sets the request options.
    pub fn set_req_options(&mut self, req_options: StrMap)
        requires
            req_options.wf(),
        ensures
            final(self)@ == (TriggerTargetV { req_options: req_options@, ..old(self)@ }),
            final(self).wf(),
    {
        self.req_options = req_options;
    }

    /// Structural equality over all fields; request options compare as
    /// maps, with no significant order.
    pub fn same_target(&self, other: &Self) -> (r: bool)
        requires
            self.wf(),
            other.wf(),
        ensures
            r == (self@ == other@),
    {
        let cls_eq = self.cls_id == other.cls_id;
        let part_eq = self.partition_id == other.partition_id;
        let fn_eq = self.fn_id == other.fn_id;
        let obj_eq = match (self.object_id, other.object_id) {
            (Option::None, Option::None) => true,
            (Option::Some(a), Option::Some(b)) => a == b,
            _ => false,
        };
        let opt_eq = self.req_options.map_eq(&other.req_options);
        let r = cls_eq && part_eq && fn_eq && obj_eq && opt_eq;
        proof {
            if r {
                assert(self@ =~= other@);
            }
        }
        r
    }

    /// Copies the target, field for field.
    pub fn duplicate(&self) -> (r: Self)
        ensures
            r@ == self@,
            r.wf() == self.wf(),
    {
        TriggerTarget {
            cls_id: self.cls_id.clone(),
            partition_id: self.partition_id,
            fn_id: self.fn_id.clone(),
            object_id: self.object_id,
            req_options: self.req_options.duplicate(),
        }
    }
}

/// The views of the stored targets, in storage order.
pub open spec fn targets_view(s: Seq<TriggerTarget>) -> Seq<TriggerTargetV> {
    s.map_values(|t: TriggerTarget| t@)
}

/// Every stored target is well formed.
pub open spec fn targets_wf(s: Seq<TriggerTarget>) -> bool {
    forall|i: int| 0 <= i < s.len() ==> (#[trigger] s[i]).wf()
}

/// Membership under structural equality.
pub open spec fn contains_target(l: Seq<TriggerTargetV>, t: TriggerTargetV) -> bool {
    exists|i: int| 0 <= i < l.len() && l[i] == t
}

/// No two stored targets are structurally equal.
pub open spec fn list_distinct(l: Seq<TriggerTargetV>) -> bool {
    forall|i: int, j: int| 0 <= i < j < l.len() ==> l[i] != l[j]
}

/// The position of the first structurally equal element.
pub open spec fn first_match(l: Seq<TriggerTargetV>, t: TriggerTargetV) -> int
    decreases l.len(),
{
    if l.len() == 0 {
        0
    } else if l[0] == t {
        0
    } else {
        1 + first_match(l.drop_first(), t)
    }
}

/// `first_match` agrees with the index found by a forward scan.
pub proof fn lemma_first_match_at(l: Seq<TriggerTargetV>, t: TriggerTargetV, i: int)
    requires
        0 <= i < l.len(),
        l[i] == t,
        forall|j: int| 0 <= j < i ==> l[j] != t,
    ensures
        first_match(l, t) == i,
    decreases i,
{
    if i == 0 {
    } else {
        assert(forall|j: int| 0 <= j < i - 1 ==> l.drop_first()[j] != t);
        lemma_first_match_at(l.drop_first(), t, i - 1);
    }
}

/// A contained element is found in range, before any other match.
pub proof fn lemma_first_match_range(l: Seq<TriggerTargetV>, t: TriggerTargetV)
    requires
        contains_target(l, t),
    ensures
        0 <= first_match(l, t) < l.len(),
        l[first_match(l, t)] == t,
        forall|j: int| 0 <= j < first_match(l, t) ==> l[j] != t,
    decreases l.len(),
{
    if l[0] == t {
    } else {
        let i = choose|i: int| 0 <= i < l.len() && l[i] == t;
        assert(l.drop_first()[i - 1] == t);
        lemma_first_match_range(l.drop_first(), t);
        assert forall|j: int| 0 <= j < first_match(l, t) implies l[j] != t by {
            if j > 0 {
                assert(l.drop_first()[j - 1] == l[j]);
            }
        };
    }
}

/// The index of the first stored target structurally equal to `t`.
fn find_target(l: &Vec<TriggerTarget>, t: &TriggerTarget) -> (r: Option<usize>)
    requires
        targets_wf(l@),
        t.wf(),
    ensures
        match r {
            Some(i) => i < l@.len() && l@[i as int]@ == t@ && forall|j: int|
                0 <= j < i ==> l@[j]@ != t@,
            None => !contains_target(targets_view(l@), t@),
        },
{
    let mut i: usize = 0;
    while i < l.len()
        invariant
            targets_wf(l@),
            t.wf(),
            i <= l@.len(),
            forall|j: int| 0 <= j < i ==> (#[trigger] l@[j])@ != t@,
        decreases l@.len() - i,
    {
        if l[i].same_target(t) {
            return Some(i);
        }
        i = i + 1;
    }
    proof {
        assert forall|j: int| 0 <= j < targets_view(l@).len() implies targets_view(l@)[j]
            != t@ by {
            assert(targets_view(l@)[j] == l@[j]@);
        };
    }
    None
}

/// Appends `t` unless a structurally equal target is present.  Returns
/// whether an element was appended.
fn add_target(l: &mut Vec<TriggerTarget>, t: TriggerTarget) -> (r: bool)
    requires
        targets_wf(old(l)@),
        t.wf(),
    ensures
        targets_wf(final(l)@),
        r == !contains_target(targets_view(old(l)@), t@),
        r ==> targets_view(final(l)@) == targets_view(old(l)@).push(t@),
        !r ==> final(l)@ == old(l)@,
{
    match find_target(l, &t) {
        Some(i) => {
            proof {
                assert(targets_view(l@)[i as int] == l@[i as int]@);
            }
            false
        },
        None => {
            l.push(t);
            proof {
                assert(targets_view(l@) =~= targets_view(old(l)@).push(t@));
            }
            true
        },
    }
}

/// Removes the first structurally equal target, if one is present.
/// Returns whether an element was removed.
fn remove_target(l: &mut Vec<TriggerTarget>, t: &TriggerTarget) -> (r: bool)
    requires
        targets_wf(old(l)@),
        t.wf(),
    ensures
        targets_wf(final(l)@),
        r == contains_target(targets_view(old(l)@), t@),
        r ==> targets_view(final(l)@) == targets_view(old(l)@).remove(
            first_match(targets_view(old(l)@), t@),
        ),
        !r ==> final(l)@ == old(l)@,
{
    match find_target(l, t) {
        Some(i) => {
            proof {
                let lv = targets_view(l@);
                assert(lv[i as int] == l@[i as int]@);
                assert forall|j: int| 0 <= j < i implies lv[j] != t@ by {
                    assert(lv[j] == l@[j]@);
                };
                lemma_first_match_at(lv, t@, i as int);
            }
            l.remove(i);
            proof {
                assert(targets_view(l@) =~= targets_view(old(l)@).remove(i as int));
            }
            true
        },
        None => false,
    }
}


/// Appending a fresh element keeps a list duplicate-free.
pub proof fn lemma_distinct_push(l: Seq<TriggerTargetV>, t: TriggerTargetV)
    requires
        list_distinct(l),
        !contains_target(l, t),
    ensures
        list_distinct(l.push(t)),
{
    assert forall|i: int, j: int| 0 <= i < j < l.push(t).len() implies l.push(t)[i]
        != l.push(t)[j] by {
        if j == l.len() {
            assert(l.push(t)[i] == l[i]);
            if l[i] == t {
                assert(contains_target(l, t));
            }
        }
    };
}

/// Removing an element keeps a list duplicate-free.
pub proof fn lemma_distinct_remove(l: Seq<TriggerTargetV>, i: int)
    requires
        list_distinct(l),
        0 <= i < l.len(),
    ensures
        list_distinct(l.remove(i)),
{
    assert forall|a: int, b: int| 0 <= a < b < l.remove(i).len() implies l.remove(i)[a]
        != l.remove(i)[b] by {
        let a0 = if a < i { a } else { a + 1 };
        let b0 = if b < i { b } else { b + 1 };
        assert(l.remove(i)[a] == l[a0]);
        assert(l.remove(i)[b] == l[b0]);
    };
}

/// Mathematical value of a [`FuncTrigger`].
#[verifier::ext_equal]
pub ghost struct FuncTriggerV {
    pub on_complete: Seq<TriggerTargetV>,
    pub on_error: Seq<TriggerTargetV>,
}

impl FuncTriggerV {
    /// Both lists are duplicate-free.
    pub open spec fn wf(self) -> bool {
        list_distinct(self.on_complete) && list_distinct(self.on_error)
    }
}

/// The entry of one source function id: the targets fired on its
/// completion and the targets fired on its error.
pub struct FuncTrigger {
    pub on_complete: Vec<TriggerTarget>,
    pub on_error: Vec<TriggerTarget>,
}

impl View for FuncTrigger {
    type V = FuncTriggerV;

    open spec fn view(&self) -> FuncTriggerV {
        FuncTriggerV {
            on_complete: targets_view(self.on_complete@),
            on_error: targets_view(self.on_error@),
        }
    }
}

/// The entry of a source function id that has never held a target.
pub open spec fn empty_func_trigger_v() -> FuncTriggerV {
    FuncTriggerV { on_complete: Seq::empty(), on_error: Seq::empty() }
}

impl FuncTrigger {
    /// Stored targets are well formed and both lists are duplicate-free.
    pub open spec fn wf(self) -> bool {
        targets_wf(self.on_complete@) && targets_wf(self.on_error@) && self@.wf()
    }

    /// Creates an empty entry.
    pub fn empty() -> (r: Self)
        ensures
            r@ == empty_func_trigger_v(),
            r.wf(),
    {
        let r = FuncTrigger { on_complete: Vec::new(), on_error: Vec::new() };
        proof {
            assert(r@ =~= empty_func_trigger_v());
        }
        r
    }

    /// Copies the entry, target for target.
    pub fn duplicate(&self) -> (r: Self)
        ensures
            r@ == self@,
            self.wf() ==> r.wf(),
    {
        let r = FuncTrigger {
            on_complete: duplicate_targets(&self.on_complete),
            on_error: duplicate_targets(&self.on_error),
        };
        proof {
            assert(r@ =~= self@);
        }
        r
    }
}

/// Mathematical value of a [`DataTrigger`].
#[verifier::ext_equal]
pub ghost struct DataTriggerV {
    pub on_create: Seq<TriggerTargetV>,
    pub on_update: Seq<TriggerTargetV>,
    pub on_delete: Seq<TriggerTargetV>,
}

impl DataTriggerV {
    /// All three lists are duplicate-free.
    pub open spec fn wf(self) -> bool {
        list_distinct(self.on_create) && list_distinct(self.on_update) && list_distinct(
            self.on_delete,
        )
    }
}

/// The entry of one source field key: the targets fired when the field
/// is created, updated, or deleted.
pub struct DataTrigger {
    pub on_create: Vec<TriggerTarget>,
    pub on_update: Vec<TriggerTarget>,
    pub on_delete: Vec<TriggerTarget>,
}

impl View for DataTrigger {
    type V = DataTriggerV;

    open spec fn view(&self) -> DataTriggerV {
        DataTriggerV {
            on_create: targets_view(self.on_create@),
            on_update: targets_view(self.on_update@),
            on_delete: targets_view(self.on_delete@),
        }
    }
}

/// The entry of a source field key that has never held a target.
pub open spec fn empty_data_trigger_v() -> DataTriggerV {
    DataTriggerV { on_create: Seq::empty(), on_update: Seq::empty(), on_delete: Seq::empty() }
}

impl DataTrigger {
    /// Stored targets are well formed and all lists are duplicate-free.
    pub open spec fn wf(self) -> bool {
        targets_wf(self.on_create@) && targets_wf(self.on_update@) && targets_wf(
            self.on_delete@,
        ) && self@.wf()
    }

    /// Creates an empty entry.
    pub fn empty() -> (r: Self)
        ensures
            r@ == empty_data_trigger_v(),
            r.wf(),
    {
        let r = DataTrigger {
            on_create: Vec::new(),
            on_update: Vec::new(),
            on_delete: Vec::new(),
        };
        proof {
            assert(r@ =~= empty_data_trigger_v());
        }
        r
    }

    /// Copies the entry, target for target.
    pub fn duplicate(&self) -> (r: Self)
        ensures
            r@ == self@,
            self.wf() ==> r.wf(),
    {
        let r = DataTrigger {
            on_create: duplicate_targets(&self.on_create),
            on_update: duplicate_targets(&self.on_update),
            on_delete: duplicate_targets(&self.on_delete),
        };
        proof {
            assert(r@ =~= self@);
        }
        r
    }
}

/// Copies a target list, element for element.
fn duplicate_targets(l: &Vec<TriggerTarget>) -> (r: Vec<TriggerTarget>)
    ensures
        targets_view(r@) == targets_view(l@),
        targets_wf(l@) ==> targets_wf(r@),
{
    let mut r: Vec<TriggerTarget> = Vec::new();
    let mut i: usize = 0;
    while i < l.len()
        invariant
            i <= l@.len(),
            r@.len() == i,
            forall|j: int|
                0 <= j < i ==> (#[trigger] r@[j])@ == l@[j]@ && r@[j].wf() == l@[j].wf(),
        decreases l@.len() - i,
    {
        r.push(l[i].duplicate());
        i = i + 1;
    }
    proof {
        assert(targets_view(r@) =~= targets_view(l@));
    }
    r
}


/// Abstraction of a stored function-trigger entry.
pub open spec fn func_val_fn() -> spec_fn(FuncTrigger) -> FuncTriggerV {
    |f: FuncTrigger| f@
}

/// Abstraction of a stored field key.
pub open spec fn u32_key_fn() -> spec_fn(u32) -> u32 {
    |k: u32| k
}

/// Abstraction of a stored data-trigger entry.
pub open spec fn data_val_fn() -> spec_fn(DataTrigger) -> DataTriggerV {
    |d: DataTrigger| d@
}

/// Mathematical value of an [`ObjectEvent`]: the two keyed trigger maps.
#[verifier::ext_equal]
pub ghost struct ObjectEventV {
    pub func_trigger: Map<Seq<char>, FuncTriggerV>,
    pub data_trigger: Map<u32, DataTriggerV>,
}

impl ObjectEventV {
    /// Every entry's lists are duplicate-free.
    pub open spec fn wf(self) -> bool {
        &&& forall|k: Seq<char>|
            self.func_trigger.contains_key(k) ==> (#[trigger] self.func_trigger[k]).wf()
        &&& forall|k: u32|
            self.data_trigger.contains_key(k) ==> (#[trigger] self.data_trigger[k]).wf()
    }
}

/// The list of a function-trigger entry selected by an event kind.
pub open spec fn fn_list_of(ft: FuncTriggerV, kind: FnTriggerType) -> Seq<TriggerTargetV> {
    match kind {
        FnTriggerType::OnComplete => ft.on_complete,
        FnTriggerType::OnError => ft.on_error,
    }
}

/// The entry with the selected list replaced.
pub open spec fn with_fn_list(
    ft: FuncTriggerV,
    kind: FnTriggerType,
    l: Seq<TriggerTargetV>,
) -> FuncTriggerV {
    match kind {
        FnTriggerType::OnComplete => FuncTriggerV { on_complete: l, ..ft },
        FnTriggerType::OnError => FuncTriggerV { on_error: l, ..ft },
    }
}

/// The list of a data-trigger entry selected by an event kind.
pub open spec fn data_list_of(dt: DataTriggerV, kind: DataTriggerType) -> Seq<TriggerTargetV> {
    match kind {
        DataTriggerType::OnCreate => dt.on_create,
        DataTriggerType::OnUpdate => dt.on_update,
        DataTriggerType::OnDelete => dt.on_delete,
    }
}

/// The entry with the selected list replaced.
pub open spec fn with_data_list(
    dt: DataTriggerV,
    kind: DataTriggerType,
    l: Seq<TriggerTargetV>,
) -> DataTriggerV {
    match kind {
        DataTriggerType::OnCreate => DataTriggerV { on_create: l, ..dt },
        DataTriggerType::OnUpdate => DataTriggerV { on_update: l, ..dt },
        DataTriggerType::OnDelete => DataTriggerV { on_delete: l, ..dt },
    }
}

/// One add or remove on the function-trigger map: the state after the
/// call, and the returned outcome.
///
/// Adding creates the entry when absent, appends the target to the
/// selected list unless a structurally equal one is present, and reports
/// whether an element was appended.  Removing deletes the first
/// structurally equal target of the selected list and reports whether one
/// was found; entries are never pruned, even when their lists are empty.
pub open spec fn fn_trigger_step(
    ev: ObjectEventV,
    source_fn_id: Seq<char>,
    t: TriggerTargetV,
    kind: FnTriggerType,
    add: bool,
) -> (ObjectEventV, bool) {
    let cur = if ev.func_trigger.contains_key(source_fn_id) {
        ev.func_trigger[source_fn_id]
    } else {
        empty_func_trigger_v()
    };
    let l = fn_list_of(cur, kind);
    if add {
        if contains_target(l, t) {
            (ev, false)
        } else {
            (
                ObjectEventV {
                    func_trigger: ev.func_trigger.insert(
                        source_fn_id,
                        with_fn_list(cur, kind, l.push(t)),
                    ),
                    ..ev
                },
                true,
            )
        }
    } else {
        if ev.func_trigger.contains_key(source_fn_id) && contains_target(l, t) {
            (
                ObjectEventV {
                    func_trigger: ev.func_trigger.insert(
                        source_fn_id,
                        with_fn_list(cur, kind, l.remove(first_match(l, t))),
                    ),
                    ..ev
                },
                true,
            )
        } else {
            (ev, false)
        }
    }
}

/// One add or remove on the data-trigger map; the same shape as
/// [`fn_trigger_step`], keyed by a field key.
pub open spec fn data_trigger_step(
    ev: ObjectEventV,
    source_key: u32,
    t: TriggerTargetV,
    kind: DataTriggerType,
    add: bool,
) -> (ObjectEventV, bool) {
    let cur = if ev.data_trigger.contains_key(source_key) {
        ev.data_trigger[source_key]
    } else {
        empty_data_trigger_v()
    };
    let l = data_list_of(cur, kind);
    if add {
        if contains_target(l, t) {
            (ev, false)
        } else {
            (
                ObjectEventV {
                    data_trigger: ev.data_trigger.insert(
                        source_key,
                        with_data_list(cur, kind, l.push(t)),
                    ),
                    ..ev
                },
                true,
            )
        }
    } else {
        if ev.data_trigger.contains_key(source_key) && contains_target(l, t) {
            (
                ObjectEventV {
                    data_trigger: ev.data_trigger.insert(
                        source_key,
                        with_data_list(cur, kind, l.remove(first_match(l, t))),
                    ),
                    ..ev
                },
                true,
            )
        } else {
            (ev, false)
        }
    }
}

/// The per-object event-trigger registry: a map from source function id
/// to its [`FuncTrigger`] entry and a map from source field key to its
/// [`DataTrigger`] entry, each stored as an association vector.
pub struct ObjectEvent {
    func_trigger: Vec<(String, FuncTrigger)>,
    data_trigger: Vec<(u32, DataTrigger)>,
}

impl View for ObjectEvent {
    type V = ObjectEventV;

    closed spec fn view(&self) -> ObjectEventV {
        ObjectEventV {
            func_trigger: crate::assoc::kv_map(
                self.func_trigger@,
                crate::str_map::str_key_fn(),
                func_val_fn(),
            ),
            data_trigger: crate::assoc::kv_map(
                self.data_trigger@,
                u32_key_fn(),
                data_val_fn(),
            ),
        }
    }
}

impl ObjectEvent {
    /// Keys are pairwise distinct and every entry is well formed.
    pub closed spec fn wf(self) -> bool {
        &&& crate::assoc::distinct_keys(self.func_trigger@, crate::str_map::str_key_fn())
        &&& crate::assoc::distinct_keys(self.data_trigger@, u32_key_fn())
        &&& forall|i: int|
            0 <= i < self.func_trigger@.len() ==> (#[trigger] self.func_trigger@[i].1).wf()
        &&& forall|i: int|
            0 <= i < self.data_trigger@.len() ==> (#[trigger] self.data_trigger@[i].1).wf()
    }

    /// A well-formed registry denotes a well-formed value.
    pub proof fn lemma_view_wf(self)
        requires
            self.wf(),
        ensures
            self@.wf(),
    {
        assert forall|k: Seq<char>| self@.func_trigger.contains_key(k) implies (
        #[trigger] self@.func_trigger[k]).wf() by {
            crate::assoc::lemma_kv_map_contains(
                self.func_trigger@,
                crate::str_map::str_key_fn(),
                func_val_fn(),
                k,
            );
            let i = choose|i: int|
                0 <= i < self.func_trigger@.len() && (
                #[trigger] self.func_trigger@[i].0)@ == k;
            crate::assoc::lemma_kv_map_index(
                self.func_trigger@,
                crate::str_map::str_key_fn(),
                func_val_fn(),
                i,
            );
        };
        assert forall|k: u32| self@.data_trigger.contains_key(k) implies (
        #[trigger] self@.data_trigger[k]).wf() by {
            crate::assoc::lemma_kv_map_contains(
                self.data_trigger@,
                u32_key_fn(),
                data_val_fn(),
                k,
            );
            let i = choose|i: int|
                0 <= i < self.data_trigger@.len() && (
                #[trigger] self.data_trigger@[i].0) == k;
            crate::assoc::lemma_kv_map_index(
                self.data_trigger@,
                u32_key_fn(),
                data_val_fn(),
                i,
            );
        };
    }

    /// Creates an empty registry.
    pub fn new() -> (r: Self)
        ensures
            r.wf(),
            r@.func_trigger == Map::<Seq<char>, FuncTriggerV>::empty(),
            r@.data_trigger == Map::<u32, DataTriggerV>::empty(),
    {
        let r = ObjectEvent { func_trigger: Vec::new(), data_trigger: Vec::new() };
        proof {
            assert(r@.func_trigger =~= Map::<Seq<char>, FuncTriggerV>::empty());
            assert(r@.data_trigger =~= Map::<u32, DataTriggerV>::empty());
        }
        r
    }

    /// The index of the entry carrying `key`, if one exists.
    fn find_fn_entry(&self, key: &String) -> (r: Option<usize>)
        ensures
            match r {
                Some(i) => i < self.func_trigger@.len() && self.func_trigger@[i as int].0@
                    == key@,
                None => forall|j: int|
                    0 <= j < self.func_trigger@.len() ==> (
                    #[trigger] self.func_trigger@[j].0)@ != key@,
            },
    {
        let mut i: usize = 0;
        while i < self.func_trigger.len()
            invariant
                i <= self.func_trigger@.len(),
                forall|j: int|
                    0 <= j < i ==> (#[trigger] self.func_trigger@[j].0)@ != key@,
            decreases self.func_trigger@.len() - i,
        {
            if self.func_trigger[i].0 == *key {
                return Some(i);
            }
            i = i + 1;
        }
        None
    }

    /// The index of the entry carrying `key`, if one exists.
    fn find_data_entry(&self, key: u32) -> (r: Option<usize>)
        ensures
            match r {
                Some(i) => i < self.data_trigger@.len() && self.data_trigger@[i as int].0
                    == key,
                None => forall|j: int|
                    0 <= j < self.data_trigger@.len() ==> (
                    #[trigger] self.data_trigger@[j].0) != key,
            },
    {
        let mut i: usize = 0;
        while i < self.data_trigger.len()
            invariant
                i <= self.data_trigger@.len(),
                forall|j: int| 0 <= j < i ==> (#[trigger] self.data_trigger@[j].0) != key,
            decreases self.data_trigger@.len() - i,
        {
            if self.data_trigger[i].0 == key {
                return Some(i);
            }
            i = i + 1;
        }
        None
    }

    /// Adds or removes a function trigger: one step of [`fn_trigger_step`]
    /// on the registry's value.
    pub fn manage_fn_trigger(
        &mut self,
        source_fn_id: String,
        trigger: TriggerTarget,
        event_type: FnTriggerType,
        add_action: bool,
    ) -> (r: bool)
        requires
            old(self).wf(),
            trigger.wf(),
        ensures
            final(self).wf(),
            ({
                let step = fn_trigger_step(
                    old(self)@,
                    source_fn_id@,
                    trigger@,
                    event_type,
                    add_action,
                );
                final(self)@ == step.0 && r == step.1
            }),
    {
        proof {
            crate::assoc::lemma_kv_map_contains(
                self.func_trigger@,
                crate::str_map::str_key_fn(),
                func_val_fn(),
                source_fn_id@,
            );
        }
        let ghost s0 = self.func_trigger@;
        let ghost ev0 = self@;
        let idx = self.find_fn_entry(&source_fn_id);
        match idx {
            Some(i) => {
                proof {
                    crate::assoc::lemma_kv_map_index(
                        s0,
                        crate::str_map::str_key_fn(),
                        func_val_fn(),
                        i as int,
                    );
                }
                let (k, mut ft) = self.func_trigger.remove(i);
                let ghost cur = ft@;
                let ghost l = fn_list_of(cur, event_type);
                let r: bool;
                if add_action {
                    r = match event_type {
                        FnTriggerType::OnComplete => add_target(&mut ft.on_complete, trigger),
                        FnTriggerType::OnError => add_target(&mut ft.on_error, trigger),
                    };
                    proof {
                        if r {
                            assert(ft@ =~= with_fn_list(cur, event_type, l.push(trigger@)));
                            lemma_distinct_push(l, trigger@);
                        } else {
                            assert(ft@ =~= cur);
                        }
                    }
                } else {
                    r = match event_type {
                        FnTriggerType::OnComplete => remove_target(
                            &mut ft.on_complete,
                            &trigger,
                        ),
                        FnTriggerType::OnError => remove_target(&mut ft.on_error, &trigger),
                    };
                    proof {
                        if r {
                            assert(ft@ =~= with_fn_list(
                                cur,
                                event_type,
                                l.remove(first_match(l, trigger@)),
                            ));
                            lemma_first_match_range(l, trigger@);
                            lemma_distinct_remove(l, first_match(l, trigger@));
                        } else {
                            assert(ft@ =~= cur);
                        }
                    }
                }
                let ghost p = (k, ft);
                self.func_trigger.insert(i, (k, ft));
                proof {
                    assert(self.func_trigger@ =~= s0.update(i as int, p));
                    crate::assoc::lemma_kv_map_update(
                        s0,
                        crate::str_map::str_key_fn(),
                        func_val_fn(),
                        i as int,
                        p,
                    );
                    let step = fn_trigger_step(
                        ev0,
                        source_fn_id@,
                        trigger@,
                        event_type,
                        add_action,
                    );
                    if r {
                        assert(self@ =~= step.0);
                    } else {
                        assert(ev0.func_trigger.insert(source_fn_id@, cur)
                            =~= ev0.func_trigger);
                        assert(self@ =~= step.0);
                    }
                }
                r
            },
            None => {
                proof {
                    assert(!ev0.func_trigger.contains_key(source_fn_id@));
                }
                if add_action {
                    let mut ft = FuncTrigger::empty();
                    match event_type {
                        FnTriggerType::OnComplete => ft.on_complete.push(trigger),
                        FnTriggerType::OnError => ft.on_error.push(trigger),
                    }
                    proof {
                        assert(ft@ =~= with_fn_list(
                            empty_func_trigger_v(),
                            event_type,
                            fn_list_of(empty_func_trigger_v(), event_type).push(trigger@),
                        ));
                    }
                    let ghost p = (source_fn_id, ft);
                    self.func_trigger.push((source_fn_id, ft));
                    proof {
                        crate::assoc::lemma_kv_map_push(
                            s0,
                            crate::str_map::str_key_fn(),
                            func_val_fn(),
                            p,
                        );
                        let step = fn_trigger_step(ev0, p.0@, trigger@, event_type, true);
                        assert(self@ =~= step.0);
                        assert(crate::assoc::distinct_keys(
                            self.func_trigger@,
                            crate::str_map::str_key_fn(),
                        ));
                    }
                    true
                } else {
                    false
                }
            },
        }
    }

    /// Adds or removes a data trigger: one step of [`data_trigger_step`]
    /// on the registry's value.
    pub fn manage_data_trigger(
        &mut self,
        source_key: u32,
        trigger: TriggerTarget,
        event_type: DataTriggerType,
        add_action: bool,
    ) -> (r: bool)
        requires
            old(self).wf(),
            trigger.wf(),
        ensures
            final(self).wf(),
            ({
                let step = data_trigger_step(
                    old(self)@,
                    source_key,
                    trigger@,
                    event_type,
                    add_action,
                );
                final(self)@ == step.0 && r == step.1
            }),
    {
        proof {
            crate::assoc::lemma_kv_map_contains(
                self.data_trigger@,
                u32_key_fn(),
                data_val_fn(),
                source_key,
            );
        }
        let ghost s0 = self.data_trigger@;
        let ghost ev0 = self@;
        let idx = self.find_data_entry(source_key);
        match idx {
            Some(i) => {
                proof {
                    crate::assoc::lemma_kv_map_index(s0, u32_key_fn(), data_val_fn(), i as int);
                }
                let (k, mut dt) = self.data_trigger.remove(i);
                let ghost cur = dt@;
                let ghost l = data_list_of(cur, event_type);
                let r: bool;
                if add_action {
                    r = match event_type {
                        DataTriggerType::OnCreate => add_target(&mut dt.on_create, trigger),
                        DataTriggerType::OnUpdate => add_target(&mut dt.on_update, trigger),
                        DataTriggerType::OnDelete => add_target(&mut dt.on_delete, trigger),
                    };
                    proof {
                        if r {
                            assert(dt@ =~= with_data_list(cur, event_type, l.push(trigger@)));
                            lemma_distinct_push(l, trigger@);
                        } else {
                            assert(dt@ =~= cur);
                        }
                    }
                } else {
                    r = match event_type {
                        DataTriggerType::OnCreate => remove_target(&mut dt.on_create, &trigger),
                        DataTriggerType::OnUpdate => remove_target(&mut dt.on_update, &trigger),
                        DataTriggerType::OnDelete => remove_target(&mut dt.on_delete, &trigger),
                    };
                    proof {
                        if r {
                            assert(dt@ =~= with_data_list(
                                cur,
                                event_type,
                                l.remove(first_match(l, trigger@)),
                            ));
                            lemma_first_match_range(l, trigger@);
                            lemma_distinct_remove(l, first_match(l, trigger@));
                        } else {
                            assert(dt@ =~= cur);
                        }
                    }
                }
                let ghost p = (k, dt);
                self.data_trigger.insert(i, (k, dt));
                proof {
                    assert(self.data_trigger@ =~= s0.update(i as int, p));
                    crate::assoc::lemma_kv_map_update(s0, u32_key_fn(), data_val_fn(), i as int, p);
                    let step = data_trigger_step(ev0, source_key, trigger@, event_type, add_action);
                    if r {
                        assert(self@ =~= step.0);
                    } else {
                        assert(ev0.data_trigger.insert(source_key, cur) =~= ev0.data_trigger);
                        assert(self@ =~= step.0);
                    }
                }
                r
            },
            None => {
                proof {
                    assert(!ev0.data_trigger.contains_key(source_key));
                }
                if add_action {
                    let mut dt = DataTrigger::empty();
                    match event_type {
                        DataTriggerType::OnCreate => dt.on_create.push(trigger),
                        DataTriggerType::OnUpdate => dt.on_update.push(trigger),
                        DataTriggerType::OnDelete => dt.on_delete.push(trigger),
                    }
                    proof {
                        assert(dt@ =~= with_data_list(
                            empty_data_trigger_v(),
                            event_type,
                            data_list_of(empty_data_trigger_v(), event_type).push(trigger@),
                        ));
                    }
                    let ghost p = (source_key, dt);
                    self.data_trigger.push((source_key, dt));
                    proof {
                        crate::assoc::lemma_kv_map_push(s0, u32_key_fn(), data_val_fn(), p);
                        let step = data_trigger_step(ev0, source_key, trigger@, event_type, true);
                        assert(self@ =~= step.0);
                        assert(crate::assoc::distinct_keys(self.data_trigger@, u32_key_fn()));
                    }
                    true
                } else {
                    false
                }
            },
        }
    }
}


impl ObjectEvent {
    /// Whether the source function id has an entry, even an empty one:
    /// a source id once touched keeps its entry.
    pub fn has_fn_entry(&self, source_fn_id: &String) -> (r: bool)
        requires
            self.wf(),
        ensures
            r == self@.func_trigger.contains_key(source_fn_id@),
    {
        proof {
            crate::assoc::lemma_kv_map_contains(
                self.func_trigger@,
                crate::str_map::str_key_fn(),
                func_val_fn(),
                source_fn_id@,
            );
        }
        match self.find_fn_entry(source_fn_id) {
            Some(_) => true,
            None => false,
        }
    }

    /// Whether the source field key has an entry, even an empty one.
    pub fn has_data_entry(&self, source_key: u32) -> (r: bool)
        requires
            self.wf(),
        ensures
            r == self@.data_trigger.contains_key(source_key),
    {
        proof {
            crate::assoc::lemma_kv_map_contains(
                self.data_trigger@,
                u32_key_fn(),
                data_val_fn(),
                source_key,
            );
        }
        match self.find_data_entry(source_key) {
            Some(_) => true,
            None => false,
        }
    }

    /// The number of targets stored under a source function id and event
    /// kind; zero when the source id has no entry.
    pub fn fn_trigger_count(&self, source_fn_id: &String, event_type: FnTriggerType) -> (n:
        usize)
        requires
            self.wf(),
        ensures
            n as int == if self@.func_trigger.contains_key(source_fn_id@) {
                fn_list_of(self@.func_trigger[source_fn_id@], event_type).len() as int
            } else {
                0
            },
    {
        proof {
            crate::assoc::lemma_kv_map_contains(
                self.func_trigger@,
                crate::str_map::str_key_fn(),
                func_val_fn(),
                source_fn_id@,
            );
        }
        match self.find_fn_entry(source_fn_id) {
            Some(i) => {
                proof {
                    crate::assoc::lemma_kv_map_index(
                        self.func_trigger@,
                        crate::str_map::str_key_fn(),
                        func_val_fn(),
                        i as int,
                    );
                }
                match event_type {
                    FnTriggerType::OnComplete => self.func_trigger[i].1.on_complete.len(),
                    FnTriggerType::OnError => self.func_trigger[i].1.on_error.len(),
                }
            },
            None => 0,
        }
    }

    /// The target stored at `index` of the list selected by a source
    /// function id and event kind, if both exist.
    pub fn fn_trigger_get(
        &self,
        source_fn_id: &String,
        event_type: FnTriggerType,
        index: usize,
    ) -> (r: Option<&TriggerTarget>)
        requires
            self.wf(),
        ensures
            match r {
                Some(t) => {
                    &&& self@.func_trigger.contains_key(source_fn_id@)
                    &&& index < fn_list_of(
                        self@.func_trigger[source_fn_id@],
                        event_type,
                    ).len()
                    &&& t@ == fn_list_of(self@.func_trigger[source_fn_id@], event_type)[
                    index as int]
                    &&& t.wf()
                },
                None => !self@.func_trigger.contains_key(source_fn_id@) || index
                    >= fn_list_of(self@.func_trigger[source_fn_id@], event_type).len(),
            },
    {
        proof {
            crate::assoc::lemma_kv_map_contains(
                self.func_trigger@,
                crate::str_map::str_key_fn(),
                func_val_fn(),
                source_fn_id@,
            );
        }
        match self.find_fn_entry(source_fn_id) {
            Some(i) => {
                proof {
                    crate::assoc::lemma_kv_map_index(
                        self.func_trigger@,
                        crate::str_map::str_key_fn(),
                        func_val_fn(),
                        i as int,
                    );
                }
                let list = match event_type {
                    FnTriggerType::OnComplete => &self.func_trigger[i].1.on_complete,
                    FnTriggerType::OnError => &self.func_trigger[i].1.on_error,
                };
                if index < list.len() {
                    proof {
                        assert(targets_view(list@)[index as int] == list@[index as int]@);
                    }
                    Some(&list[index])
                } else {
                    None
                }
            },
            None => None,
        }
    }

    /// The number of targets stored under a source field key and event
    /// kind; zero when the key has no entry.
    pub fn data_trigger_count(&self, source_key: u32, event_type: DataTriggerType) -> (n:
        usize)
        requires
            self.wf(),
        ensures
            n as int == if self@.data_trigger.contains_key(source_key) {
                data_list_of(self@.data_trigger[source_key], event_type).len() as int
            } else {
                0
            },
    {
        proof {
            crate::assoc::lemma_kv_map_contains(
                self.data_trigger@,
                u32_key_fn(),
                data_val_fn(),
                source_key,
            );
        }
        match self.find_data_entry(source_key) {
            Some(i) => {
                proof {
                    crate::assoc::lemma_kv_map_index(
                        self.data_trigger@,
                        u32_key_fn(),
                        data_val_fn(),
                        i as int,
                    );
                }
                match event_type {
                    DataTriggerType::OnCreate => self.data_trigger[i].1.on_create.len(),
                    DataTriggerType::OnUpdate => self.data_trigger[i].1.on_update.len(),
                    DataTriggerType::OnDelete => self.data_trigger[i].1.on_delete.len(),
                }
            },
            None => 0,
        }
    }

    /// The target stored at `index` of the list selected by a source
    /// field key and event kind, if both exist.
    pub fn data_trigger_get(
        &self,
        source_key: u32,
        event_type: DataTriggerType,
        index: usize,
    ) -> (r: Option<&TriggerTarget>)
        requires
            self.wf(),
        ensures
            match r {
                Some(t) => {
                    &&& self@.data_trigger.contains_key(source_key)
                    &&& index < data_list_of(self@.data_trigger[source_key], event_type).len()
                    &&& t@ == data_list_of(self@.data_trigger[source_key], event_type)[
                    index as int]
                    &&& t.wf()
                },
                None => !self@.data_trigger.contains_key(source_key) || index
                    >= data_list_of(self@.data_trigger[source_key], event_type).len(),
            },
    {
        proof {
            crate::assoc::lemma_kv_map_contains(
                self.data_trigger@,
                u32_key_fn(),
                data_val_fn(),
                source_key,
            );
        }
        match self.find_data_entry(source_key) {
            Some(i) => {
                proof {
                    crate::assoc::lemma_kv_map_index(
                        self.data_trigger@,
                        u32_key_fn(),
                        data_val_fn(),
                        i as int,
                    );
                }
                let list = match event_type {
                    DataTriggerType::OnCreate => &self.data_trigger[i].1.on_create,
                    DataTriggerType::OnUpdate => &self.data_trigger[i].1.on_update,
                    DataTriggerType::OnDelete => &self.data_trigger[i].1.on_delete,
                };
                if index < list.len() {
                    proof {
                        assert(targets_view(list@)[index as int] == list@[index as int]@);
                    }
                    Some(&list[index])
                } else {
                    None
                }
            },
            None => None,
        }
    }

    /// Copies the registry, entry for entry.
    pub fn duplicate(&self) -> (r: Self)
        requires
            self.wf(),
        ensures
            r@ == self@,
            r.wf(),
    {
        let mut func_trigger: Vec<(String, FuncTrigger)> = Vec::new();
        let mut i: usize = 0;
        while i < self.func_trigger.len()
            invariant
                self.wf(),
                i <= self.func_trigger@.len(),
                func_trigger@.len() == i,
                forall|j: int|
                    0 <= j < i ==> (#[trigger] func_trigger@[j]).0 == self.func_trigger@[j].0
                        && func_trigger@[j].1@ == self.func_trigger@[j].1@
                        && func_trigger@[j].1.wf(),
            decreases self.func_trigger@.len() - i,
        {
            func_trigger.push(
                (self.func_trigger[i].0.clone(), self.func_trigger[i].1.duplicate()),
            );
            i = i + 1;
        }
        let mut data_trigger: Vec<(u32, DataTrigger)> = Vec::new();
        let mut j: usize = 0;
        while j < self.data_trigger.len()
            invariant
                self.wf(),
                j <= self.data_trigger@.len(),
                data_trigger@.len() == j,
                forall|m: int|
                    0 <= m < j ==> (#[trigger] data_trigger@[m]).0 == self.data_trigger@[m].0
                        && data_trigger@[m].1@ == self.data_trigger@[m].1@
                        && data_trigger@[m].1.wf(),
            decreases self.data_trigger@.len() - j,
        {
            data_trigger.push((self.data_trigger[j].0, self.data_trigger[j].1.duplicate()));
            j = j + 1;
        }
        let r = ObjectEvent { func_trigger, data_trigger };
        proof {
            crate::assoc::lemma_kv_map_congruence(
                r.func_trigger@,
                self.func_trigger@,
                crate::str_map::str_key_fn(),
                func_val_fn(),
            );
            crate::assoc::lemma_kv_map_congruence(
                r.data_trigger@,
                self.data_trigger@,
                u32_key_fn(),
                data_val_fn(),
            );
            assert(r@ =~= self@);
        }
        r
    }
}

/// Idempotent add: a second add of the same target under the same source
/// function id and event kind reports `false` and leaves the registry
/// unchanged; starting from an absent entry, the first add reports `true`
/// and the stored list holds exactly that one target.
pub proof fn lemma_fn_trigger_add_idempotent(
    ev: ObjectEventV,
    source_fn_id: Seq<char>,
    t: TriggerTargetV,
    kind: FnTriggerType,
)
    ensures
        ({
            let (ev1, r1) = fn_trigger_step(ev, source_fn_id, t, kind, true);
            let (ev2, r2) = fn_trigger_step(ev1, source_fn_id, t, kind, true);
            &&& r2 == false
            &&& ev2 == ev1
            &&& (!ev.func_trigger.contains_key(source_fn_id) ==> r1 == true && fn_list_of(
                ev1.func_trigger[source_fn_id],
                kind,
            ) == seq![t])
        }),
{
    let cur = if ev.func_trigger.contains_key(source_fn_id) {
        ev.func_trigger[source_fn_id]
    } else {
        empty_func_trigger_v()
    };
    let l = fn_list_of(cur, kind);
    let (ev1, r1) = fn_trigger_step(ev, source_fn_id, t, kind, true);
    if !contains_target(l, t) {
        assert(fn_list_of(ev1.func_trigger[source_fn_id], kind) == l.push(t));
        assert(l.push(t)[l.len() as int] == t);
        assert(contains_target(l.push(t), t));
        if !ev.func_trigger.contains_key(source_fn_id) {
            assert(l.push(t) =~= seq![t]);
        }
    }
}

/// Symmetric remove: removing an absent target reports `false` and
/// leaves the registry unchanged; removing a present target reports
/// `true` and shortens exactly the selected list by one.
pub proof fn lemma_fn_trigger_remove_symmetric(
    ev: ObjectEventV,
    source_fn_id: Seq<char>,
    t: TriggerTargetV,
    kind: FnTriggerType,
)
    ensures
        ({
            let present = ev.func_trigger.contains_key(source_fn_id) && contains_target(
                fn_list_of(ev.func_trigger[source_fn_id], kind),
                t,
            );
            let (ev1, r1) = fn_trigger_step(ev, source_fn_id, t, kind, false);
            &&& r1 == present
            &&& (!present ==> ev1 == ev)
            &&& (present ==> fn_list_of(ev1.func_trigger[source_fn_id], kind).len()
                == fn_list_of(ev.func_trigger[source_fn_id], kind).len() - 1)
        }),
{
    if ev.func_trigger.contains_key(source_fn_id) {
        let l = fn_list_of(ev.func_trigger[source_fn_id], kind);
        if contains_target(l, t) {
            lemma_first_match_range(l, t);
        }
    }
}

/// Order preservation: adding three pairwise-distinct, absent targets to
/// the same list appends them in call order.
pub proof fn lemma_fn_trigger_add_order(
    ev: ObjectEventV,
    source_fn_id: Seq<char>,
    t1: TriggerTargetV,
    t2: TriggerTargetV,
    t3: TriggerTargetV,
    kind: FnTriggerType,
)
    requires
        t1 != t2,
        t1 != t3,
        t2 != t3,
        ({
            let l0 = if ev.func_trigger.contains_key(source_fn_id) {
                fn_list_of(ev.func_trigger[source_fn_id], kind)
            } else {
                Seq::<TriggerTargetV>::empty()
            };
            !contains_target(l0, t1) && !contains_target(l0, t2) && !contains_target(l0, t3)
        }),
    ensures
        ({
            let l0 = if ev.func_trigger.contains_key(source_fn_id) {
                fn_list_of(ev.func_trigger[source_fn_id], kind)
            } else {
                Seq::<TriggerTargetV>::empty()
            };
            let (ev1, r1) = fn_trigger_step(ev, source_fn_id, t1, kind, true);
            let (ev2, r2) = fn_trigger_step(ev1, source_fn_id, t2, kind, true);
            let (ev3, r3) = fn_trigger_step(ev2, source_fn_id, t3, kind, true);
            &&& r1 && r2 && r3
            &&& fn_list_of(ev3.func_trigger[source_fn_id], kind) == l0 + seq![t1, t2, t3]
        }),
{
    let l0 = if ev.func_trigger.contains_key(source_fn_id) {
        fn_list_of(ev.func_trigger[source_fn_id], kind)
    } else {
        Seq::<TriggerTargetV>::empty()
    };
    let (ev1, r1) = fn_trigger_step(ev, source_fn_id, t1, kind, true);
    let l1 = l0.push(t1);
    assert(fn_list_of(ev1.func_trigger[source_fn_id], kind) == l1);
    assert(!contains_target(l1, t2)) by {
        assert forall|i: int| 0 <= i < l1.len() implies l1[i] != t2 by {
            if i < l0.len() {
                assert(l1[i] == l0[i]);
                if l0[i] == t2 {
                    assert(contains_target(l0, t2));
                }
            }
        };
    };
    assert(!contains_target(l1, t3)) by {
        assert forall|i: int| 0 <= i < l1.len() implies l1[i] != t3 by {
            if i < l0.len() {
                assert(l1[i] == l0[i]);
                if l0[i] == t3 {
                    assert(contains_target(l0, t3));
                }
            }
        };
    };
    let (ev2, r2) = fn_trigger_step(ev1, source_fn_id, t2, kind, true);
    let l2 = l1.push(t2);
    assert(fn_list_of(ev2.func_trigger[source_fn_id], kind) == l2);
    assert(!contains_target(l2, t3)) by {
        assert forall|i: int| 0 <= i < l2.len() implies l2[i] != t3 by {
            if i < l1.len() {
                assert(l2[i] == l1[i]);
                if l1[i] == t3 {
                    assert(contains_target(l1, t3));
                }
            }
        };
    };
    let (ev3, r3) = fn_trigger_step(ev2, source_fn_id, t3, kind, true);
    assert(fn_list_of(ev3.func_trigger[source_fn_id], kind) == l2.push(t3));
    assert(l2.push(t3) =~= l0 + seq![t1, t2, t3]);
}

/// Disjointness: a step under one source function id and event kind
/// touches no data trigger, no other source id, and no other event
/// kind's list of the same source id.
pub proof fn lemma_fn_trigger_disjoint(
    ev: ObjectEventV,
    source_fn_id: Seq<char>,
    t: TriggerTargetV,
    kind: FnTriggerType,
    add: bool,
)
    ensures
        ({
            let (ev1, r) = fn_trigger_step(ev, source_fn_id, t, kind, add);
            &&& ev1.data_trigger == ev.data_trigger
            &&& forall|k2: Seq<char>|
                k2 != source_fn_id ==> ev1.func_trigger.contains_key(k2)
                    == ev.func_trigger.contains_key(k2)
            &&& forall|k2: Seq<char>|
                k2 != source_fn_id && ev.func_trigger.contains_key(k2)
                    ==> ev1.func_trigger[k2] == ev.func_trigger[k2]
            &&& (ev.func_trigger.contains_key(source_fn_id) ==> forall|kind2: FnTriggerType|
                kind2 != kind ==> fn_list_of(ev1.func_trigger[source_fn_id], kind2)
                    == fn_list_of(ev.func_trigger[source_fn_id], kind2))
        }),
{
}

/// Idempotent add, for data triggers.
pub proof fn lemma_data_trigger_add_idempotent(
    ev: ObjectEventV,
    source_key: u32,
    t: TriggerTargetV,
    kind: DataTriggerType,
)
    ensures
        ({
            let (ev1, r1) = data_trigger_step(ev, source_key, t, kind, true);
            let (ev2, r2) = data_trigger_step(ev1, source_key, t, kind, true);
            &&& r2 == false
            &&& ev2 == ev1
            &&& (!ev.data_trigger.contains_key(source_key) ==> r1 == true && data_list_of(
                ev1.data_trigger[source_key],
                kind,
            ) == seq![t])
        }),
{
    let cur = if ev.data_trigger.contains_key(source_key) {
        ev.data_trigger[source_key]
    } else {
        empty_data_trigger_v()
    };
    let l = data_list_of(cur, kind);
    let (ev1, r1) = data_trigger_step(ev, source_key, t, kind, true);
    if !contains_target(l, t) {
        assert(data_list_of(ev1.data_trigger[source_key], kind) == l.push(t));
        assert(l.push(t)[l.len() as int] == t);
        assert(contains_target(l.push(t), t));
        if !ev.data_trigger.contains_key(source_key) {
            assert(l.push(t) =~= seq![t]);
        }
    }
}

/// Symmetric remove, for data triggers.
pub proof fn lemma_data_trigger_remove_symmetric(
    ev: ObjectEventV,
    source_key: u32,
    t: TriggerTargetV,
    kind: DataTriggerType,
)
    ensures
        ({
            let present = ev.data_trigger.contains_key(source_key) && contains_target(
                data_list_of(ev.data_trigger[source_key], kind),
                t,
            );
            let (ev1, r1) = data_trigger_step(ev, source_key, t, kind, false);
            &&& r1 == present
            &&& (!present ==> ev1 == ev)
            &&& (present ==> data_list_of(ev1.data_trigger[source_key], kind).len()
                == data_list_of(ev.data_trigger[source_key], kind).len() - 1)
        }),
{
    if ev.data_trigger.contains_key(source_key) {
        let l = data_list_of(ev.data_trigger[source_key], kind);
        if contains_target(l, t) {
            lemma_first_match_range(l, t);
        }
    }
}

/// Order preservation, for data triggers.
pub proof fn lemma_data_trigger_add_order(
    ev: ObjectEventV,
    source_key: u32,
    t1: TriggerTargetV,
    t2: TriggerTargetV,
    t3: TriggerTargetV,
    kind: DataTriggerType,
)
    requires
        t1 != t2,
        t1 != t3,
        t2 != t3,
        ({
            let l0 = if ev.data_trigger.contains_key(source_key) {
                data_list_of(ev.data_trigger[source_key], kind)
            } else {
                Seq::<TriggerTargetV>::empty()
            };
            !contains_target(l0, t1) && !contains_target(l0, t2) && !contains_target(l0, t3)
        }),
    ensures
        ({
            let l0 = if ev.data_trigger.contains_key(source_key) {
                data_list_of(ev.data_trigger[source_key], kind)
            } else {
                Seq::<TriggerTargetV>::empty()
            };
            let (ev1, r1) = data_trigger_step(ev, source_key, t1, kind, true);
            let (ev2, r2) = data_trigger_step(ev1, source_key, t2, kind, true);
            let (ev3, r3) = data_trigger_step(ev2, source_key, t3, kind, true);
            &&& r1 && r2 && r3
            &&& data_list_of(ev3.data_trigger[source_key], kind) == l0 + seq![t1, t2, t3]
        }),
{
    let l0 = if ev.data_trigger.contains_key(source_key) {
        data_list_of(ev.data_trigger[source_key], kind)
    } else {
        Seq::<TriggerTargetV>::empty()
    };
    let (ev1, r1) = data_trigger_step(ev, source_key, t1, kind, true);
    let l1 = l0.push(t1);
    assert(data_list_of(ev1.data_trigger[source_key], kind) == l1);
    assert(!contains_target(l1, t2)) by {
        assert forall|i: int| 0 <= i < l1.len() implies l1[i] != t2 by {
            if i < l0.len() {
                assert(l1[i] == l0[i]);
                if l0[i] == t2 {
                    assert(contains_target(l0, t2));
                }
            }
        };
    };
    assert(!contains_target(l1, t3)) by {
        assert forall|i: int| 0 <= i < l1.len() implies l1[i] != t3 by {
            if i < l0.len() {
                assert(l1[i] == l0[i]);
                if l0[i] == t3 {
                    assert(contains_target(l0, t3));
                }
            }
        };
    };
    let (ev2, r2) = data_trigger_step(ev1, source_key, t2, kind, true);
    let l2 = l1.push(t2);
    assert(data_list_of(ev2.data_trigger[source_key], kind) == l2);
    assert(!contains_target(l2, t3)) by {
        assert forall|i: int| 0 <= i < l2.len() implies l2[i] != t3 by {
            if i < l1.len() {
                assert(l2[i] == l1[i]);
                if l1[i] == t3 {
                    assert(contains_target(l1, t3));
                }
            }
        };
    };
    let (ev3, r3) = data_trigger_step(ev2, source_key, t3, kind, true);
    assert(data_list_of(ev3.data_trigger[source_key], kind) == l2.push(t3));
    assert(l2.push(t3) =~= l0 + seq![t1, t2, t3]);
}

/// Disjointness, for data triggers.
pub proof fn lemma_data_trigger_disjoint(
    ev: ObjectEventV,
    source_key: u32,
    t: TriggerTargetV,
    kind: DataTriggerType,
    add: bool,
)
    ensures
        ({
            let (ev1, r) = data_trigger_step(ev, source_key, t, kind, add);
            &&& ev1.func_trigger == ev.func_trigger
            &&& forall|k2: u32|
                k2 != source_key ==> ev1.data_trigger.contains_key(k2)
                    == ev.data_trigger.contains_key(k2)
            &&& forall|k2: u32|
                k2 != source_key && ev.data_trigger.contains_key(k2)
                    ==> ev1.data_trigger[k2] == ev.data_trigger[k2]
            &&& (ev.data_trigger.contains_key(source_key) ==> forall|kind2: DataTriggerType|
                kind2 != kind ==> data_list_of(ev1.data_trigger[source_key], kind2)
                    == data_list_of(ev.data_trigger[source_key], kind2))
        }),
{
}

} // verus!
