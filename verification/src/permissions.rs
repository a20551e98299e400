use crate::text::{decimal, push_char, push_decimal};
use vstd::prelude::*;
use vstd::std_specs::cmp::PartialEqSpecImpl;

verus! {

/// A semantic engine version.
#[derive(Debug, Clone, Copy, PartialEq, Eq, Structural)]
pub struct EngineVersion {
    pub major: u32,
    pub minor: u32,
    pub patch: u32,
}

impl EngineVersion {
    /// A version from its three parts.
    pub fn new(major: u32, minor: u32, patch: u32) -> (v: Self)
        ensures
            v == (EngineVersion { major, minor, patch }),
    {
        EngineVersion { major, minor, patch }
    }

    /// The version of this engine, 0.1.0.
    pub fn current() -> (v: Self)
        ensures
            v == (EngineVersion { major: 0, minor: 1, patch: 0 }),
    {
        EngineVersion { major: 0, minor: 1, patch: 0 }
    }

    /// `major.minor.patch`.
    pub fn to_text(&self) -> (s: String)
        ensures
            s@ == decimal(self.major as nat).push('.') + decimal(self.minor as nat).push('.')
                + decimal(self.patch as nat),
    {
        let mut s = String::new();
        push_decimal(&mut s, self.major as u64);
        push_char(&mut s, '.');
        push_decimal(&mut s, self.minor as u64);
        push_char(&mut s, '.');
        push_decimal(&mut s, self.patch as u64);
        assert(s@ =~= decimal(self.major as nat).push('.') + decimal(self.minor as nat).push('.')
            + decimal(self.patch as nat));
        s
    }
}

/// A capability that a tool can require and a session can hold.
#[derive(Debug, Clone, Copy, PartialEq, Eq, PartialOrd, Ord, Hash, Structural)]
pub enum Permission {
    Read,
    Plan,
    DryRun,
    EditContent,
    EditSchema,
    EditCode,
    RunValidation,
    RunBuild,
    RunPreview,
    RunExternalProcess,
    CommitChanges,
    Publish,
}

/// Position of a permission in declaration order.
pub open spec fn rank(p: Permission) -> nat {
    match p {
        Permission::Read => 0,
        Permission::Plan => 1,
        Permission::DryRun => 2,
        Permission::EditContent => 3,
        Permission::EditSchema => 4,
        Permission::EditCode => 5,
        Permission::RunValidation => 6,
        Permission::RunBuild => 7,
        Permission::RunPreview => 8,
        Permission::RunExternalProcess => 9,
        Permission::CommitChanges => 10,
        Permission::Publish => 11,
    }
}

/// The permission at a declaration position.
pub open spec fn permission_at(r: nat) -> Permission {
    if r == 0 {
        Permission::Read
    } else if r == 1 {
        Permission::Plan
    } else if r == 2 {
        Permission::DryRun
    } else if r == 3 {
        Permission::EditContent
    } else if r == 4 {
        Permission::EditSchema
    } else if r == 5 {
        Permission::EditCode
    } else if r == 6 {
        Permission::RunValidation
    } else if r == 7 {
        Permission::RunBuild
    } else if r == 8 {
        Permission::RunPreview
    } else if r == 9 {
        Permission::RunExternalProcess
    } else if r == 10 {
        Permission::CommitChanges
    } else {
        Permission::Publish
    }
}

proof fn lemma_rank_roundtrip(p: Permission)
    ensures
        rank(p) < 12,
        permission_at(rank(p)) == p,
{
}

fn rank_of(p: Permission) -> (r: usize)
    ensures
        r == rank(p),
{
    match p {
        Permission::Read => 0,
        Permission::Plan => 1,
        Permission::DryRun => 2,
        Permission::EditContent => 3,
        Permission::EditSchema => 4,
        Permission::EditCode => 5,
        Permission::RunValidation => 6,
        Permission::RunBuild => 7,
        Permission::RunPreview => 8,
        Permission::RunExternalProcess => 9,
        Permission::CommitChanges => 10,
        Permission::Publish => 11,
    }
}

fn permission_of(r: usize) -> (p: Permission)
    requires
        r < 12,
    ensures
        p == permission_at(r as nat),
        rank(p) == r,
{
    if r == 0 {
        Permission::Read
    } else if r == 1 {
        Permission::Plan
    } else if r == 2 {
        Permission::DryRun
    } else if r == 3 {
        Permission::EditContent
    } else if r == 4 {
        Permission::EditSchema
    } else if r == 5 {
        Permission::EditCode
    } else if r == 6 {
        Permission::RunValidation
    } else if r == 7 {
        Permission::RunBuild
    } else if r == 8 {
        Permission::RunPreview
    } else if r == 9 {
        Permission::RunExternalProcess
    } else if r == 10 {
        Permission::CommitChanges
    } else {
        Permission::Publish
    }
}

/// Permissions listed without repetition, in declaration order.
pub open spec fn strictly_ordered(s: Seq<Permission>) -> bool {
    forall|i: int, j: int| 0 <= i < j < s.len() ==> rank(#[trigger] s[i]) < rank(#[trigger] s[j])
}

/// A set of permissions, kept in declaration order.
#[derive(Debug, Eq)]
pub struct PermissionSet {
    values: Vec<Permission>,
}

/// Two sets are equal when they hold the same permissions.
impl PartialEq for PermissionSet {
    fn eq(&self, other: &Self) -> (r: bool) {
        let r = self.contains_all(other) && other.contains_all(self);
        assert(r == (self.view() =~= other.view()));
        r
    }
}

impl PartialEqSpecImpl for PermissionSet {
    open spec fn obeys_eq_spec() -> bool {
        true
    }

    open spec fn eq_spec(&self, other: &Self) -> bool {
        self.view() == other.view()
    }
}

/// Two permission sets made from lists are equal exactly when the lists hold the same
/// permissions, whatever their order and repetitions; and a set holds a permission
/// exactly when its list does.
pub proof fn lemma_permission_sets_equal(xs: Seq<Permission>, ys: Seq<Permission>, a: PermissionSet, b: PermissionSet)
    requires
        a.view() == xs.to_set(),
        b.view() == ys.to_set(),
    ensures
        vstd::std_specs::cmp::PartialEqSpec::eq_spec(&a, &b) <==> (forall|p: Permission| xs.contains(p) <==> ys.contains(p)),
        forall|p: Permission| a.view().contains(p) <==> xs.contains(p),
{
    if forall|p: Permission| xs.contains(p) <==> ys.contains(p) {
        assert(xs.to_set() =~= ys.to_set());
    }
    if vstd::std_specs::cmp::PartialEqSpec::eq_spec(&a, &b) {
        assert forall|p: Permission| xs.contains(p) <==> ys.contains(p) by {
            assert(xs.to_set().contains(p) == ys.to_set().contains(p));
        }
    }
}

impl Clone for PermissionSet {
    fn clone(&self) -> (r: Self)
        ensures
            r.view() == self.view(),
    {
        let mut values: Vec<Permission> = Vec::new();
        let mut i: usize = 0;
        while i < self.values.len()
            invariant
                i <= self.values@.len(),
                values@ == self.values@.take(i as int),
            decreases self.values@.len() - i,
        {
            values.push(self.values[i]);
            assert(self.values@.take(i as int + 1) =~= self.values@.take(i as int).push(self.values@[i as int]));
            i = i + 1;
        }
        assert(self.values@.take(self.values@.len() as int) =~= self.values@);
        PermissionSet { values }
    }
}

impl PermissionSet {
    /// The permissions in the set.
    pub closed spec fn view(&self) -> Set<Permission> {
        self.values@.to_set()
    }

    /// The set of the given permissions (repetitions collapse).
    pub fn new(values: Vec<Permission>) -> (s: Self)
        ensures
            s.view() == values@.to_set(),
    {
        let mut present: Vec<bool> = Vec::new();
        let mut r: usize = 0;
        while r < 12
            invariant
                r <= 12,
                present@.len() == r,
                forall|k: int| 0 <= k < r ==> !(#[trigger] present@[k]),
            decreases 12 - r,
        {
            present.push(false);
            r = r + 1;
        }
        let mut i: usize = 0;
        while i < values.len()
            invariant
                i <= values@.len(),
                present@.len() == 12,
                forall|k: int|
                    0 <= k < 12 ==> (#[trigger] present@[k] <==> exists|j: int|
                        0 <= j < i && rank(values@[j]) == k),
            decreases values@.len() - i,
        {
            let k = rank_of(values[i]);
            present.set(k, true);
            proof {
                assert forall|m: int| 0 <= m < 12 implies (#[trigger] present@[m] <==> exists|j: int|
                    0 <= j < i + 1 && rank(values@[j]) == m) by {
                    if m == k {
                        assert(rank(values@[i as int]) == m);
                    } else if present@[m] {
                        let j = choose|j: int| 0 <= j < i && rank(values@[j]) == m;
                        assert(0 <= j < i + 1 && rank(values@[j]) == m);
                    }
                }
            }
            i = i + 1;
        }
        let mut out: Vec<Permission> = Vec::new();
        let mut r: usize = 0;
        while r < 12
            invariant
                r <= 12,
                present@.len() == 12,
                forall|k: int|
                    0 <= k < 12 ==> (#[trigger] present@[k] <==> exists|j: int|
                        0 <= j < values@.len() && rank(values@[j]) == k),
                strictly_ordered(out@),
                forall|j: int| 0 <= j < out@.len() ==> rank(#[trigger] out@[j]) < r,
                forall|p: Permission|
                    rank(p) < r ==> (out@.contains(p) <==> #[trigger] present@[rank(p) as int]),
            decreases 12 - r,
        {
            if present[r] {
                let p = permission_of(r);
                let ghost before = out@;
                out.push(p);
                proof {
                    assert forall|q: Permission| rank(q) < r + 1 implies (out@.contains(q)
                        <==> #[trigger] present@[rank(q) as int]) by {
                        if rank(q) == r {
                            lemma_rank_roundtrip(q);
                            assert(out@[out@.len() - 1] == q);
                        } else if out@.contains(q) {
                            let j = choose|j: int| 0 <= j < out@.len() && out@[j] == q;
                            if j == out@.len() - 1 {
                                assert(rank(q) == r);
                            } else {
                                assert(out@.drop_last()[j] == q);
                                assert(before.contains(q));
                            }
                        } else if present@[rank(q) as int] {
                            assert(before == out@.drop_last());
                            assert(before.contains(q));
                        }
                    }
                }
            } else {
                proof {
                    assert forall|q: Permission| rank(q) < r + 1 implies (out@.contains(q)
                        <==> #[trigger] present@[rank(q) as int]) by {
                        if rank(q) == r && out@.contains(q) {
                            let j = choose|j: int| 0 <= j < out@.len() && out@[j] == q;
                        }
                    }
                }
            }
            r = r + 1;
        }
        proof {
            assert forall|p: Permission| out@.to_set().contains(p) <==> values@.to_set().contains(p) by {
                lemma_rank_roundtrip(p);
                if values@.contains(p) {
                    let j = choose|j: int| 0 <= j < values@.len() && values@[j] == p;
                    assert(present@[rank(p) as int]);
                }
                if out@.contains(p) {
                    assert(present@[rank(p) as int]);
                    let j = choose|j: int| 0 <= j < values@.len() && rank(values@[j]) == rank(p);
                    lemma_rank_roundtrip(values@[j]);
                    assert(values@[j] == p);
                }
            }
            assert(out@.to_set() =~= values@.to_set());
        }
        PermissionSet { values: out }
    }

    /// Read, plan and dry-run.
    pub fn read_only() -> (s: Self)
        ensures
            s.view() == set![Permission::Read, Permission::Plan, Permission::DryRun],
    {
        let s = Self::new(vec![Permission::Read, Permission::Plan, Permission::DryRun]);
        proof {
            let v = seq![Permission::Read, Permission::Plan, Permission::DryRun];
            assert(v.to_set() =~= set![Permission::Read, Permission::Plan, Permission::DryRun]) by {
                assert(v[0] == Permission::Read && v[1] == Permission::Plan && v[2]
                    == Permission::DryRun);
            }
        }
        s
    }

    /// The permissions of a content author: read, plan, dry-run, edit content, and run
    /// validation, build and preview.
    pub fn content_author() -> (s: Self)
        ensures
            s.view() == set![
                Permission::Read,
                Permission::Plan,
                Permission::DryRun,
                Permission::EditContent,
                Permission::RunValidation,
                Permission::RunBuild,
                Permission::RunPreview,
            ],
    {
        let s = Self::new(
            vec![
                Permission::Read,
                Permission::Plan,
                Permission::DryRun,
                Permission::EditContent,
                Permission::RunValidation,
                Permission::RunBuild,
                Permission::RunPreview,
            ],
        );
        proof {
            let v = seq![
                Permission::Read,
                Permission::Plan,
                Permission::DryRun,
                Permission::EditContent,
                Permission::RunValidation,
                Permission::RunBuild,
                Permission::RunPreview,
            ];
            assert(v[0] == Permission::Read && v[1] == Permission::Plan && v[2]
                == Permission::DryRun && v[3] == Permission::EditContent && v[4]
                == Permission::RunValidation && v[5] == Permission::RunBuild && v[6]
                == Permission::RunPreview);
            assert(v.to_set() =~= set![
                Permission::Read,
                Permission::Plan,
                Permission::DryRun,
                Permission::EditContent,
                Permission::RunValidation,
                Permission::RunBuild,
                Permission::RunPreview,
            ]);
        }
        s
    }

    /// Whether the set holds `permission`.
    pub fn contains(&self, permission: Permission) -> (r: bool)
        ensures
            r == self.view().contains(permission),
    {
        let mut i: usize = 0;
        while i < self.values.len()
            invariant
                i <= self.values@.len(),
                forall|j: int| 0 <= j < i ==> self.values@[j] != permission,
            decreases self.values@.len() - i,
        {
            if self.values[i] == permission {
                assert(self.values@.contains(permission));
                return true;
            }
            i = i + 1;
        }
        false
    }

    /// Whether every permission of `required` is in this set.
    pub fn contains_all(&self, required: &PermissionSet) -> (r: bool)
        ensures
            r == required.view().subset_of(self.view()),
    {
        let mut i: usize = 0;
        while i < required.values.len()
            invariant
                i <= required.values@.len(),
                forall|j: int| 0 <= j < i ==> self.view().contains(#[trigger] required.values@[j]),
            decreases required.values@.len() - i,
        {
            if !self.contains(required.values[i]) {
                return false;
            }
            i = i + 1;
        }
        true
    }

    /// The permissions in declaration order.
    pub fn iter(&self) -> (out: Vec<Permission>)
        ensures
            out@.to_set() == self.view(),
            strictly_ordered(out@),
    {
        let mut out: Vec<Permission> = Vec::new();
        let mut r: usize = 0;
        while r < 12
            invariant
                r <= 12,
                strictly_ordered(out@),
                forall|j: int| 0 <= j < out@.len() ==> rank(#[trigger] out@[j]) < r,
                forall|p: Permission|
                    rank(p) < r ==> (out@.contains(p) <==> #[trigger] self.view().contains(p)),
                forall|j: int| 0 <= j < out@.len() ==> self.view().contains(#[trigger] out@[j]),
            decreases 12 - r,
        {
            let p = permission_of(r);
            let ghost before = out@;
            if self.contains(p) {
                out.push(p);
            }
            proof {
                assert forall|q: Permission| rank(q) < r + 1 implies (out@.contains(q)
                    <==> #[trigger] self.view().contains(q)) by {
                    lemma_rank_roundtrip(q);
                    if rank(q) == r {
                        if out@.contains(q) && !self.view().contains(q) {
                            let j = choose|j: int| 0 <= j < out@.len() && out@[j] == q;
                        }
                        if self.view().contains(q) {
                            assert(out@[out@.len() - 1] == q);
                        }
                    } else {
                        if out@.contains(q) {
                            let j = choose|j: int| 0 <= j < out@.len() && out@[j] == q;
                            if j < before.len() {
                                assert(before[j] == q);
                            }
                        }
                        if before.contains(q) {
                            let j = choose|j: int| 0 <= j < before.len() && before[j] == q;
                            assert(out@[j] == q);
                        }
                    }
                }
            }
            r = r + 1;
        }
        proof {
            assert forall|p: Permission| out@.to_set().contains(p) <==> self.view().contains(p) by {
                lemma_rank_roundtrip(p);
            }
            assert(out@.to_set() =~= self.view());
        }
        out
    }
}


/// The wire name of a permission.
pub open spec fn permission_name(p: Permission) -> Seq<char> {
    match p {
        Permission::Read => "read"@,
        Permission::Plan => "plan"@,
        Permission::DryRun => "dry_run"@,
        Permission::EditContent => "edit_content"@,
        Permission::EditSchema => "edit_schema"@,
        Permission::EditCode => "edit_code"@,
        Permission::RunValidation => "run_validation"@,
        Permission::RunBuild => "run_build"@,
        Permission::RunPreview => "run_preview"@,
        Permission::RunExternalProcess => "run_external_process"@,
        Permission::CommitChanges => "commit_changes"@,
        Permission::Publish => "publish"@,
    }
}

/// The names of the held permissions among the first `r`, in declaration order.
pub open spec fn held_names(s: Set<Permission>, r: nat) -> Seq<Seq<char>>
    decreases r,
{
    if r == 0 {
        Seq::empty()
    } else {
        held_names(s, (r - 1) as nat) + if s.contains(permission_at((r - 1) as nat)) {
            seq![permission_name(permission_at((r - 1) as nat))]
        } else {
            Seq::empty()
        }
    }
}

/// A permission set as JSON: the names of its members in declaration order.
pub open spec fn permissions_model(s: Set<Permission>) -> crate::json::JsonModel {
    crate::json::JsonModel::Array(
        Seq::new(held_names(s, 12).len(), |i: int| crate::json::JsonModel::String(held_names(s, 12)[i])),
    )
}

fn name_of(p: Permission) -> (s: &'static str)
    ensures
        s@ == permission_name(p),
{
    match p {
        Permission::Read => "read",
        Permission::Plan => "plan",
        Permission::DryRun => "dry_run",
        Permission::EditContent => "edit_content",
        Permission::EditSchema => "edit_schema",
        Permission::EditCode => "edit_code",
        Permission::RunValidation => "run_validation",
        Permission::RunBuild => "run_build",
        Permission::RunPreview => "run_preview",
        Permission::RunExternalProcess => "run_external_process",
        Permission::CommitChanges => "commit_changes",
        Permission::Publish => "publish",
    }
}

impl PermissionSet {
    /// The set as JSON (see `permissions_model`).
    pub fn to_json(&self) -> (v: crate::json::JsonValue)
        ensures
            crate::json::model(v) == permissions_model(self.view()),
    {
        let ghost s = self.view();
        let mut items: Vec<crate::json::JsonValue> = Vec::new();
        let mut r: usize = 0;
        while r < 12
            invariant
                s == self.view(),
                r <= 12,
                crate::json::items_model(items@) == Seq::new(held_names(s, r as nat).len(), |i: int| crate::json::JsonModel::String(held_names(s, r as nat)[i])),
            decreases 12 - r,
        {
            let p = permission_of(r);
            let ghost before = items@;
            let ghost h0 = held_names(s, r as nat);
            assert(held_names(s, (r + 1) as nat) == h0 + if s.contains(p) {
                seq![permission_name(p)]
            } else {
                Seq::<Seq<char>>::empty()
            });
            if self.contains(p) {
                items.push(crate::json::json_string(name_of(p)));
                assert(crate::json::items_model(items@) =~= crate::json::items_model(before).push(crate::json::JsonModel::String(permission_name(p))));
            } else {
                assert(crate::json::items_model(items@) =~= crate::json::items_model(before));
            }
            assert(crate::json::items_model(items@) =~= Seq::new(held_names(s, (r + 1) as nat).len(), |i: int| crate::json::JsonModel::String(held_names(s, (r + 1) as nat)[i])));
            r = r + 1;
        }
        let v = crate::json::JsonValue::Array(items);
        proof {
            crate::json::lemma_model_parts(v);
        }
        v
    }
}

} // verus!
