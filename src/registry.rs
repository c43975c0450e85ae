use vstd::prelude::*;
use crate::models::{AppView, DBApp};

verus! {

/// Failure of the application registry.
#[derive(Clone, Copy, Debug, PartialEq, Eq, Structural)]
pub enum RegistryError {
    /// The insert of a new application succeeded but reading it back found nothing.
    MissingAfterInsert,
    /// An application with that name is already stored.
    DuplicateName,
}

/// `app` with its path replaced.
pub open spec fn with_path(app: AppView, path: Seq<char>) -> AppView {
    AppView { id: app.id, name: app.name, path, icon: app.icon }
}

/// For an application found under the observed name: the application to report,
/// carrying the observed path, and whether the stored path must be updated.
pub fn reconcile_stored(stored: DBApp, path: &String) -> (r: (DBApp, bool))
    ensures
        r.0@ == with_path(stored@, path@),
        r.1 == (stored.path@ != path@),
{
    if stored.path != *path {
        let updated = DBApp { id: stored.id, name: stored.name, path: path.clone(), icon: stored.icon };
        (updated, true)
    } else {
        (stored, false)
    }
}

/// The row to insert for an application seen for the first time.
pub fn new_app(name: &String, path: &String) -> (r: DBApp)
    ensures
        r@ == (AppView { id: None, name: name@, path: path@, icon: None }),
{
    DBApp { id: None, name: name.clone(), path: path.clone(), icon: None }
}

/// The outcome of reading back an application just inserted.
pub fn created_app(reread: Option<DBApp>) -> (r: Result<DBApp, RegistryError>)
    ensures
        reread matches Some(a) ==> r matches Ok(b) && b@ == a@,
        reread is None ==> r == Err::<DBApp, RegistryError>(RegistryError::MissingAfterInsert),
{
    match reread {
        Some(a) => Ok(a),
        None => Err(RegistryError::MissingAfterInsert),
    }
}

/// Whether some application of `apps` has the name `name`.
pub open spec fn has_name(apps: Seq<AppView>, name: Seq<char>) -> bool {
    exists|i: int| 0 <= i < apps.len() && #[trigger] apps[i].name == name
}

/// The position of the application named `name`.
pub open spec fn index_of(apps: Seq<AppView>, name: Seq<char>) -> int {
    choose|i: int| 0 <= i < apps.len() && #[trigger] apps[i].name == name
}

/// The application stored under `name`.
pub open spec fn lookup(apps: Seq<AppView>, name: Seq<char>) -> Option<AppView> {
    if has_name(apps, name) {
        Some(apps[index_of(apps, name)])
    } else {
        None
    }
}

/// Stored applications: numbered from 1 in order of creation, names unique.
pub open spec fn registry_wf(apps: Seq<AppView>) -> bool {
    &&& apps.len() < i64::MAX
    &&& forall|i: int| 0 <= i < apps.len() ==> #[trigger] apps[i].id == Some((i + 1) as i64)
    &&& forall|i: int, j: int|
        0 <= i < apps.len() && 0 <= j < apps.len() && i != j ==> apps[i].name != apps[j].name
}

/// The applications after resolving `(name, path)`, and the application resolved.
pub open spec fn resolve_spec(apps: Seq<AppView>, name: Seq<char>, path: Seq<char>) -> (Seq<AppView>, AppView) {
    if has_name(apps, name) {
        let i = index_of(apps, name);
        let u = with_path(apps[i], path);
        (apps.update(i, u), u)
    } else {
        let n = AppView { id: Some((apps.len() + 1) as i64), name, path, icon: None };
        (apps.push(n), n)
    }
}

/// The application registry: resolves a (name, path) pair to one persisted identity.
pub struct AppRegistry {
    apps: Vec<DBApp>,
}

impl View for AppRegistry {
    type V = Seq<AppView>;

    closed spec fn view(&self) -> Seq<AppView> {
        self.apps@.map_values(|a: DBApp| a@)
    }
}

impl AppRegistry {
    pub open spec fn wf(&self) -> bool {
        registry_wf(self@)
    }

    pub fn new() -> (r: AppRegistry)
        ensures
            r.wf(),
            r@ == Seq::<AppView>::empty(),
    {
        let r = AppRegistry { apps: Vec::new() };
        assert(r@ =~= Seq::<AppView>::empty());
        r
    }

    pub fn len(&self) -> (r: usize)
        ensures
            r == self@.len(),
    {
        self.apps.len()
    }

    fn find(&self, name: &String) -> (r: Option<usize>)
        requires
            self.wf(),
        ensures
            r is None <==> !has_name(self@, name@),
            r matches Some(i) ==> i < self@.len() && i == index_of(self@, name@),
    {
        let mut i: usize = 0;
        while i < self.apps.len()
            invariant
                i <= self@.len(),
                self.wf(),
                self@.len() == self.apps@.len(),
                forall|j: int| 0 <= j < i ==> #[trigger] self@[j].name != name@,
            decreases self.apps@.len() - i,
        {
            assert(self@[i as int] == self.apps@[i as int]@);
            if self.apps[i].name == *name {
                proof {
                    assert(self@[i as int].name == name@);
                    let k = index_of(self@, name@);
                    assert(0 <= k < self@.len() && self@[k].name == name@);
                    if k != i as int {
                        assert(self@[k].name != self@[i as int].name);
                    }
                }
                return Some(i);
            }
            i = i + 1;
        }
        None
    }

    /// The application stored under `name`.
    pub fn get_saved_app(&self, name: &String) -> (r: Option<DBApp>)
        requires
            self.wf(),
        ensures
            r is None <==> lookup(self@, name@) is None,
            r matches Some(a) ==> lookup(self@, name@) == Some(a@),
    {
        match self.find(name) {
            Some(i) => {
                assert(self@[i as int] == self.apps@[i as int]@);
                Some(self.apps[i].duplicate())
            },
            None => None,
        }
    }

    /// Stores a new application under the next id; fails on a name already stored.
    pub fn save_app(&mut self, app: &DBApp) -> (r: Result<(), RegistryError>)
        requires
            old(self).wf(),
            old(self)@.len() + 1 < i64::MAX,
        ensures
            final(self).wf(),
            has_name(old(self)@, app.name@) ==> r == Err::<(), RegistryError>(RegistryError::DuplicateName)
                && final(self)@ == old(self)@,
            !has_name(old(self)@, app.name@) ==> r is Ok && final(self)@ == old(self)@.push(
                AppView { id: Some((old(self)@.len() + 1) as i64), name: app.name@, path: app.path@, icon: app@.icon },
            ),
    {
        if self.find(&app.name).is_some() {
            return Err(RegistryError::DuplicateName);
        }
        let ghost before = self@;
        let id = (self.apps.len() as i64) + 1;
        let copy = app.duplicate();
        let stored = DBApp { id: Some(id), name: copy.name, path: copy.path, icon: copy.icon };
        self.apps.push(stored);
        proof {
            assert(self@ =~= before.push(stored@));
            assert forall|i: int, j: int|
                0 <= i < self@.len() && 0 <= j < self@.len() && i != j implies self@[i].name != self@[j].name by {
                if i == before.len() as int {
                    assert(before[j].name == self@[j].name);
                } else if j == before.len() as int {
                    assert(before[i].name == self@[i].name);
                }
            }
        }
        Ok(())
    }

    /// Sets the path of the application stored under `name`, if any.
    pub fn update_app_path(&mut self, name: &String, new_path: &String)
        requires
            old(self).wf(),
        ensures
            final(self).wf(),
            has_name(old(self)@, name@) ==> final(self)@ == old(self)@.update(
                index_of(old(self)@, name@),
                with_path(old(self)@[index_of(old(self)@, name@)], new_path@),
            ),
            !has_name(old(self)@, name@) ==> final(self)@ == old(self)@,
    {
        match self.find(name) {
            Some(i) => {
                let ghost before = self@;
                let old_app = self.apps[i].duplicate();
                let (updated, _) = reconcile_stored(old_app, new_path);
                self.apps.set(i, updated);
                proof {
                    assert(self@ =~= before.update(i as int, with_path(before[i as int], new_path@)));
                    assert forall|a: int, b: int|
                        0 <= a < self@.len() && 0 <= b < self@.len() && a != b implies self@[a].name
                            != self@[b].name by {
                        assert(self@[a].name == before[a].name);
                        assert(self@[b].name == before[b].name);
                    }
                    assert forall|a: int| 0 <= a < self@.len() implies #[trigger] self@[a].id == Some((a + 1) as i64) by {
                        assert(self@[a].id == before[a].id);
                    }
                }
            },
            None => {},
        }
    }

    /// Resolves an observed `(name, path)` to its application: the stored one,
    /// with its path updated in place where it differs, or a new one.
    pub fn resolve(&mut self, name: &String, path: &String) -> (r: Result<DBApp, RegistryError>)
        requires
            old(self).wf(),
            old(self)@.len() + 1 < i64::MAX,
        ensures
            final(self).wf(),
            r matches Ok(a) && (final(self)@, a@) == resolve_spec(old(self)@, name@, path@),
    {
        match self.get_saved_app(name) {
            Some(app) => {
                let (updated, changed) = reconcile_stored(app, path);
                if changed {
                    self.update_app_path(name, path);
                } else {
                    proof {
                        let i = index_of(old(self)@, name@);
                        assert(old(self)@.update(i, with_path(old(self)@[i], path@)) =~= old(self)@);
                    }
                }
                Ok(updated)
            },
            None => {
                let fresh = new_app(name, path);
                let _ = self.save_app(&fresh);
                let reread = self.get_saved_app(name);
                proof {
                    let n = self@.len() - 1;
                    assert(self@[n].name == name@);
                    assert(has_name(self@, name@));
                    assert(index_of(self@, name@) == n);
                }
                created_app(reread)
            },
        }
    }
}

/// Resolving the same name twice gives the same id; the second time with the
/// same path nothing changes, with another path only that path changes.
pub proof fn lemma_resolve_keeps_identity(
    apps: Seq<AppView>,
    name: Seq<char>,
    path: Seq<char>,
    other_path: Seq<char>,
)
    requires
        registry_wf(apps),
        apps.len() + 1 < i64::MAX,
    ensures
        ({
            let (after, first) = resolve_spec(apps, name, path);
            let (again, second) = resolve_spec(after, name, path);
            let (moved, third) = resolve_spec(after, name, other_path);
            &&& second.id == first.id
            &&& again == after
            &&& third.id == first.id
            &&& third.path == other_path
            &&& third == with_path(first, other_path)
            &&& moved.len() == after.len()
        }),
{
    let (after, first) = resolve_spec(apps, name, path);
    if has_name(apps, name) {
        let i = index_of(apps, name);
        assert(after[i].name == name);
        assert(has_name(after, name));
        let k = index_of(after, name);
        assert(after[k].name == name);
        if k != i {
            assert(apps[k].name == after[k].name);
        }
        assert(k == i);
        assert(after.update(i, with_path(after[i], path)) =~= after);
    } else {
        let n = apps.len() as int;
        assert(after[n].name == name);
        assert(has_name(after, name));
        let k = index_of(after, name);
        assert(after[k].name == name);
        if k != n {
            assert(apps[k].name == name);
        }
        assert(k == n);
        assert(after.update(n, with_path(after[n], path)) =~= after);
    }
}

} // verus!
