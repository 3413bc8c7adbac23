//! Routes: revision-scoped output paths, each served by one input file.
use vstd::prelude::*;
use vstd::string::StringExecFns;
use crate::builder::BuildError;

verus! {

/// A route of a revision.
#[derive(Debug, Clone)]
pub struct Route {
    pub revision_id: i64,
    pub route: String,
    pub input_file_id: String,
}

/// A route row to insert.
#[derive(Debug)]
pub struct NewRoute<'a> {
    pub revision_id: i64,
    pub route: &'a str,
    pub input_file_id: &'a str,
}

impl<'a> NewRoute<'a> {
    pub fn new(revision_id: i64, route: &'a str, input_file_id: &'a str) -> (r: Self)
        ensures
            r.revision_id == revision_id,
            r.route == route,
            r.input_file_id == input_file_id,
    {
        NewRoute { revision_id, route, input_file_id }
    }
}

/// The routes of one revision, keyed by route.
#[derive(Debug)]
pub struct RouteTable {
    revision_id: i64,
    routes: Vec<Route>,
}

impl View for RouteTable {
    /// Route and input-file id of each entry, in insertion order.
    type V = Seq<(Seq<char>, Seq<char>)>;

    closed spec fn view(&self) -> Self::V {
        self.routes@.map_values(|r: Route| (r.route@, r.input_file_id@))
    }
}

/// `s` holds a route equal to `route`.
pub open spec fn has_route(s: Seq<(Seq<char>, Seq<char>)>, route: Seq<char>) -> bool {
    exists|i: int| 0 <= i < s.len() && s[i].0 == route
}

/// No two entries of `s` share a route.
pub open spec fn routes_distinct(s: Seq<(Seq<char>, Seq<char>)>) -> bool {
    forall|i: int, j: int| 0 <= i < j < s.len() ==> s[i].0 != s[j].0
}

impl RouteTable {
    /// Every entry belongs to the table's revision and no route repeats.
    pub closed spec fn wf(&self) -> bool {
        &&& forall|i: int| 0 <= i < self.routes@.len() ==> self.routes@[i].revision_id
            == self.revision_id
        &&& routes_distinct(self@)
    }

    pub closed spec fn revision(&self) -> i64 {
        self.revision_id
    }

    /// An empty table for a revision.
    pub fn new(revision_id: i64) -> (r: Self)
        ensures
            r.wf(),
            r.revision() == revision_id,
            r@ == Seq::<(Seq<char>, Seq<char>)>::empty(),
    {
        let r = RouteTable { revision_id, routes: Vec::new() };
        assert(r@ =~= Seq::<(Seq<char>, Seq<char>)>::empty());
        r
    }

    /// The routes, in insertion order.
    pub fn routes(&self) -> (r: &Vec<Route>)
        requires
            self.wf(),
        ensures
            r@.map_values(|x: Route| (x.route@, x.input_file_id@)) == self@,
            forall|i: int| 0 <= i < r@.len() ==> r@[i].revision_id == self.revision(),
    {
        &self.routes
    }

    /// The position of `route` in the table.
    pub fn position(&self, route: &str) -> (r: Option<usize>)
        ensures
            r is None <==> !has_route(self@, route@),
            r matches Some(i) ==> i < self@.len() && self@[i as int].0 == route@,
    {
        let mut i: usize = 0;
        while i < self.routes.len()
            invariant
                i <= self.routes@.len(),
                forall|j: int| 0 <= j < i ==> self@[j].0 != route@,
            decreases self.routes@.len() - i,
        {
            let here = self.routes[i].route.as_str();
            assert(self@[i as int] == (self.routes@[i as int].route@, self.routes@[i as int].input_file_id@));
            if crate::text::equals(here, route) {
                return Some(i);
            }
            i = i + 1;
        }
        None
    }

    /// The entry with `route`, if any.
    pub fn lookup(&self, route: &str) -> (r: Option<&Route>)
        requires
            self.wf(),
        ensures
            r is None <==> !has_route(self@, route@),
            r matches Some(x) ==> x.route@ == route@ && self@.contains((x.route@, x.input_file_id@))
                && x.revision_id == self.revision(),
    {
        match self.position(route) {
            Some(i) => {
                assert(self@[i as int] == (self.routes@[i as int].route@, self.routes@[i as int].input_file_id@));
                Some(&self.routes[i])
            },
            None => None,
        }
    }

    /// The first entry served by `input_file_id`, if any.
    pub fn first_for_input_file(&self, input_file_id: &str) -> (r: Option<&Route>)
        requires
            self.wf(),
        ensures
            r is None <==> !(exists|i: int| 0 <= i < self@.len() && self@[i].1 == input_file_id@),
            r matches Some(x) ==> x.input_file_id@ == input_file_id@ && self@.contains(
                (x.route@, x.input_file_id@),
            ),
    {
        let mut i: usize = 0;
        while i < self.routes.len()
            invariant
                i <= self.routes@.len(),
                forall|j: int| 0 <= j < i ==> self@[j].1 != input_file_id@,
            decreases self.routes@.len() - i,
        {
            if crate::text::equals(self.routes[i].input_file_id.as_str(), input_file_id) {
                assert(self@[i as int] == (self.routes@[i as int].route@, self.routes@[i as int].input_file_id@));
                return Some(&self.routes[i]);
            }
            i = i + 1;
        }
        None
    }

    /// Adds a route served by `input_file_id`; a route already in the table
    /// is refused and the table is left unchanged.
    pub fn add(&mut self, route: &str, input_file_id: &str) -> (r: Result<(), BuildError>)
        requires
            old(self).wf(),
        ensures
            final(self).wf(),
            final(self).revision() == old(self).revision(),
            has_route(old(self)@, route@) ==> r == Err::<(), BuildError>(BuildError::DuplicateRoute)
                && final(self)@ == old(self)@,
            !has_route(old(self)@, route@) ==> r is Ok && final(self)@ == old(self)@.push(
                (route@, input_file_id@),
            ),
    {
        if self.position(route).is_some() {
            return Err(BuildError::DuplicateRoute);
        }
        let entry = Route {
            revision_id: self.revision_id,
            route: String::from_str(route),
            input_file_id: String::from_str(input_file_id),
        };
        let ghost before = self@;
        self.routes.push(entry);
        assert(self@ =~= before.push((route@, input_file_id@)));
        Ok(())
    }
}

/// Route uniqueness: in a well-formed table no two entries share a revision
/// and a route.
pub proof fn lemma_routes_unique(t: RouteTable)
    requires
        t.wf(),
    ensures
        forall|i: int, j: int|
            0 <= i < j < t@.len() ==> t@[i].0 != t@[j].0,
{
}

} // verus!
