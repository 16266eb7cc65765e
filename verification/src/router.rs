use vstd::prelude::*;
use vstd::string::*;
use crate::handlers::about;
use crate::handlers::home;
use crate::handlers::page;
use crate::text::str_eq;

verus! {

/// The fixed pages that a route can lead to.
#[derive(Copy, Clone, Debug, PartialEq, Eq)]
pub enum Handler {
    Home,
    About,
}

impl Handler {
    /// The response that this handler produces.
    pub open spec fn spec_respond(self) -> Seq<u8> {
        match self {
            Handler::Home => page("<h1>Welcome home!</h1>".spec_bytes()),
            Handler::About => page("<h1>About us</h1>".spec_bytes()),
        }
    }

    /// Produces the handler's response.
    pub fn respond(self) -> (response: Vec<u8>)
        ensures
            response@ == self.spec_respond(),
    {
        match self {
            Handler::Home => home(),
            Handler::About => about(),
        }
    }
}

/// One entry of the route table.
pub struct Route {
    pub path: String,
    pub handler: Handler,
}

/// The mapping that a list of entries stands for. A later entry for a path replaces an
/// earlier one.
pub open spec fn mapping(entries: Seq<Route>) -> Map<Seq<char>, Handler>
    decreases entries.len(),
{
    if entries.len() == 0 {
        Map::empty()
    } else {
        mapping(entries.drop_last()).insert(entries.last().path@, entries.last().handler)
    }
}

/// What a mapping holds for a path.
pub open spec fn lookup(routes: Map<Seq<char>, Handler>, path: Seq<char>) -> Option<Handler> {
    if routes.contains_key(path) {
        Some(routes[path])
    } else {
        None
    }
}

/// The table of routes: a mapping from exact paths to handlers. It is filled once and
/// then only read.
pub struct RouteTable {
    entries: Vec<Route>,
}

impl View for RouteTable {
    type V = Map<Seq<char>, Handler>;

    closed spec fn view(&self) -> Map<Seq<char>, Handler> {
        mapping(self.entries@)
    }
}

impl RouteTable {
    /// A table without routes.
    pub fn new() -> (table: RouteTable)
        ensures
            table@ == Map::<Seq<char>, Handler>::empty(),
    {
        RouteTable { entries: Vec::new() }
    }

    /// The routes this server starts with: `/` and `/about`.
    pub fn standard() -> (table: RouteTable)
        ensures
            table@ == Map::<Seq<char>, Handler>::empty().insert("/"@, Handler::Home).insert(
                "/about"@,
                Handler::About,
            ),
    {
        let mut table = RouteTable::new();
        table.insert("/", Handler::Home);
        table.insert("/about", Handler::About);
        table
    }

    /// Routes `path` to `handler`, in place of any handler it was routed to before.
    pub fn insert(&mut self, path: &str, handler: Handler)
        ensures
            final(self)@ == old(self)@.insert(path@, handler),
    {
        self.entries.push(Route { path: path.to_owned(), handler });
        assert(self.entries@.drop_last() =~= old(self).entries@);
    }

    /// Looks `path` up. Only the whole path counts: there are no patterns or prefixes,
    /// and a query string is part of the path.
    pub fn get(&self, path: &str) -> (found: Option<Handler>)
        ensures
            found == lookup(self@, path@),
    {
        let mut i: usize = self.entries.len();
        assert(self.entries@.take(i as int) =~= self.entries@);
        while i > 0
            invariant
                i <= self.entries@.len(),
                lookup(self@, path@) == lookup(mapping(self.entries@.take(i as int)), path@),
            decreases i,
        {
            assert(self.entries@.take(i as int).drop_last() =~= self.entries@.take(i - 1));
            if str_eq(self.entries[i - 1].path.as_str(), path) {
                return Some(self.entries[i - 1].handler);
            }
            i = i - 1;
        }
        None
    }
}

} // verus!
