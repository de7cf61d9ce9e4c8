//! What a session remembers between statements: who runs it, where it
//! stands, and the queries it has run.

use vstd::prelude::*;
use vstd::string::StringExecFns;
use vstd::string::StringSliceAdditionalSpecFns;
use crate::users::{distinct_names, lists_name, RoleInfo, UserInfo};

verus! {

/// How a session reached the server.
#[derive(Clone, Copy, Debug, PartialEq, Eq, Structural)]
pub enum SessionType {
    Clickhouse,
    MySQL,
    HTTPQuery,
    HTTPStreamingLoad,
    FlightSQL,
    FlightRPC,
    Local,
    Dummy,
}

/// The part of the server's configuration that decides the tenant.
#[derive(Clone, Debug, PartialEq, Eq)]
pub struct QueryConfig {
    pub internal_enable_sandbox_tenant: bool,
    pub management_mode: bool,
    pub tenant_id: String,
}

/// The settings of a session, as far as the session context reads them.
#[derive(Clone, Debug, PartialEq, Eq)]
pub struct Settings {
    pub sandbox_tenant: Option<String>,
}

/// The address a client connected from.
#[derive(Clone, Debug, PartialEq, Eq)]
pub struct ClientHost {
    pub ip: String,
    pub port: u16,
}

/// What the queries of a session share while one of them runs.
#[derive(Clone, Debug, PartialEq, Eq)]
pub struct QueryContextShared {
    pub init_query_id: String,
}

pub struct SessionContext {
    abort: bool,
    settings: Settings,
    current_catalog: String,
    current_database: String,
    current_tenant: String,
    current_user: Option<UserInfo>,
    current_role: Option<RoleInfo>,
    auth_role: Option<String>,
    secondary_roles: Option<Vec<String>>,
    client_host: Option<ClientHost>,
    io_shutdown_tx: Option<Vec<u64>>,
    query_context_shared: Option<QueryContextShared>,
    query_ids_results: Vec<(String, Option<String>)>,
    typ: SessionType,
}

/// A byte with an upper-case letter turned into its lower-case one.
pub open spec fn ascii_lower(b: u8) -> u8 {
    if 0x41 <= b <= 0x5a {
        (b + 0x20) as u8
    } else {
        b
    }
}

/// Whether two texts are equal but for the case of their ASCII letters.
pub open spec fn same_ignoring_case(a: Seq<u8>, b: Seq<u8>) -> bool {
    a.len() == b.len() && forall|i: int| 0 <= i < a.len() ==> ascii_lower(#[trigger] a[i])
        == ascii_lower(b[i])
}

fn lower(b: u8) -> (out: u8)
    ensures
        out == ascii_lower(b),
{
    if 0x41 <= b && b <= 0x5a {
        b + 0x20
    } else {
        b
    }
}

/// Compares two texts without regard to the case of ASCII letters.
pub fn eq_ignore_ascii_case(a: &str, b: &str) -> (same: bool)
    ensures
        same == same_ignoring_case(a.spec_bytes(), b.spec_bytes()),
{
    let x: &[u8] = a.as_bytes();
    let y: &[u8] = b.as_bytes();
    if x.len() != y.len() {
        return false;
    }
    let mut i: usize = 0;
    while i < x.len()
        invariant
            i <= x.len(),
            x.len() == y.len(),
            x@ == a.spec_bytes(),
            y@ == b.spec_bytes(),
            forall|k: int| 0 <= k < i ==> ascii_lower(#[trigger] x@[k]) == ascii_lower(y@[k]),
        decreases x.len() - i,
    {
        if lower(x[i]) != lower(y[i]) {
            return false;
        }
        i = i + 1;
    }
    true
}

/// The place of the last entry whose query id is `query_id`, case aside.
pub open spec fn last_match(ids: Seq<(String, Option<String>)>, query_id: Seq<char>) -> Option<int> {
    if exists|i: int| 0 <= i < ids.len() && matches_id(#[trigger] ids[i], query_id) {
        Some(
            choose|i: int|
                0 <= i < ids.len() && matches_id(#[trigger] ids[i], query_id) && forall|j: int|
                    i < j < ids.len() ==> !matches_id(#[trigger] ids[j], query_id),
        )
    } else {
        None
    }
}

/// Whether an entry is that of a query id, case aside.
pub open spec fn matches_id(entry: (String, Option<String>), query_id: Seq<char>) -> bool {
    same_ignoring_case(vstd::utf8::encode_utf8(entry.0@), vstd::utf8::encode_utf8(query_id))
}

/// The tenant a session acts for: the sandbox tenant where sandboxes are on
/// and the session names one; else the session's own tenant, where the
/// server is in management mode or the session is local and it has one;
/// else the tenant of the server.
pub open spec fn tenant_of(
    conf: &QueryConfig,
    settings: &Settings,
    typ: SessionType,
    current_tenant: Seq<char>,
) -> Seq<char> {
    let sandbox = match settings.sandbox_tenant {
        Some(t) => t@,
        None => Seq::empty(),
    };
    if conf.internal_enable_sandbox_tenant && sandbox.len() > 0 {
        sandbox
    } else if (conf.management_mode || typ == SessionType::Local) && current_tenant.len() > 0 {
        current_tenant
    } else {
        conf.tenant_id@
    }
}

impl SessionContext {
    pub closed spec fn abort_flag(&self) -> bool {
        self.abort
    }

    pub closed spec fn catalog(&self) -> Seq<char> {
        self.current_catalog@
    }

    pub closed spec fn database(&self) -> Seq<char> {
        self.current_database@
    }

    pub closed spec fn tenant(&self) -> Seq<char> {
        self.current_tenant@
    }

    pub closed spec fn user(&self) -> Option<UserInfo> {
        self.current_user
    }

    pub closed spec fn role(&self) -> Option<RoleInfo> {
        self.current_role
    }

    pub closed spec fn authenticated_role(&self) -> Option<String> {
        self.auth_role
    }

    pub closed spec fn roles_beside(&self) -> Option<Vec<String>> {
        self.secondary_roles
    }

    pub closed spec fn host(&self) -> Option<ClientHost> {
        self.client_host
    }

    /// The hooks to run when the session's connection shuts down, in the
    /// order they were set.
    pub closed spec fn shutdown_hooks(&self) -> Option<Seq<u64>> {
        match self.io_shutdown_tx {
            Some(hooks) => Some(hooks@),
            None => None,
        }
    }

    pub closed spec fn shared(&self) -> Option<QueryContextShared> {
        self.query_context_shared
    }

    /// The queries of the session with the keys of their cached results, in
    /// the order they were first run.
    pub closed spec fn query_ids(&self) -> Seq<(String, Option<String>)> {
        self.query_ids_results@
    }

    pub closed spec fn session_type(&self) -> SessionType {
        self.typ
    }

    pub closed spec fn session_settings(&self) -> Settings {
        self.settings
    }

    /// Everything but the queries run is as in `other`.
    pub closed spec fn same_but_queries(&self, other: &SessionContext) -> bool {
        &&& self.abort == other.abort
        &&& self.settings == other.settings
        &&& self.current_catalog == other.current_catalog
        &&& self.current_database == other.current_database
        &&& self.current_tenant == other.current_tenant
        &&& self.current_user == other.current_user
        &&& self.current_role == other.current_role
        &&& self.auth_role == other.auth_role
        &&& self.secondary_roles == other.secondary_roles
        &&& self.client_host == other.client_host
        &&& self.io_shutdown_tx == other.io_shutdown_tx
        &&& self.query_context_shared == other.query_context_shared
        &&& self.typ == other.typ
    }

    /// A fresh session: in the default catalog and database, with no user,
    /// no role, no tenant of its own and no query run.
    pub fn try_create(settings: Settings, typ: SessionType) -> (ctx: SessionContext)
        ensures
            !ctx.abort_flag(),
            ctx.session_settings() == settings,
            ctx.session_type() == typ,
            ctx.catalog() == "default"@,
            ctx.database() == "default"@,
            ctx.tenant() == Seq::<char>::empty(),
            ctx.user() is None,
            ctx.role() is None,
            ctx.authenticated_role() is None,
            ctx.roles_beside() is None,
            ctx.host() is None,
            ctx.shutdown_hooks() is None,
            ctx.shared() is None,
            ctx.query_ids() == Seq::<(String, Option<String>)>::empty(),
    {
        SessionContext {
            settings,
            abort: false,
            current_user: None,
            current_role: None,
            auth_role: None,
            secondary_roles: None,
            current_tenant: String::new(),
            client_host: None,
            current_catalog: String::from_str("default"),
            current_database: String::from_str("default"),
            io_shutdown_tx: None,
            query_context_shared: None,
            query_ids_results: Vec::new(),
            typ,
        }
    }

    pub fn get_abort(&self) -> (abort: bool)
        ensures
            abort == self.abort_flag(),
    {
        self.abort
    }

    pub fn set_abort(&mut self, v: bool)
        ensures
            final(self).abort_flag() == v,
            final(self).query_ids() == old(self).query_ids(),
            final(self).catalog() == old(self).catalog(),
            final(self).database() == old(self).database(),
            final(self).tenant() == old(self).tenant(),
    {
        self.abort = v;
    }

    pub fn get_settings(&self) -> (settings: &Settings)
        ensures
            *settings == self.session_settings(),
    {
        &self.settings
    }

    pub fn get_current_catalog(&self) -> (catalog: String)
        ensures
            catalog@ == self.catalog(),
    {
        self.current_catalog.clone()
    }

    pub fn set_current_catalog(&mut self, catalog_name: String)
        ensures
            final(self).catalog() == catalog_name@,
            final(self).database() == old(self).database(),
            final(self).tenant() == old(self).tenant(),
            final(self).query_ids() == old(self).query_ids(),
    {
        self.current_catalog = catalog_name;
    }

    pub fn get_current_database(&self) -> (db: String)
        ensures
            db@ == self.database(),
    {
        self.current_database.clone()
    }

    pub fn set_current_database(&mut self, db: String)
        ensures
            final(self).database() == db@,
            final(self).catalog() == old(self).catalog(),
            final(self).tenant() == old(self).tenant(),
            final(self).query_ids() == old(self).query_ids(),
    {
        self.current_database = db;
    }

    pub fn get_current_role(&self) -> (role: &Option<RoleInfo>)
        ensures
            *role == self.role(),
    {
        &self.current_role
    }

    pub fn set_current_role(&mut self, role: Option<RoleInfo>)
        ensures
            final(self).role() == role,
            final(self).user() == old(self).user(),
            final(self).query_ids() == old(self).query_ids(),
    {
        self.current_role = role;
    }

    pub fn get_auth_role(&self) -> (role: &Option<String>)
        ensures
            *role == self.authenticated_role(),
    {
        &self.auth_role
    }

    pub fn set_auth_role(&mut self, role: Option<String>)
        ensures
            final(self).authenticated_role() == role,
            final(self).role() == old(self).role(),
            final(self).query_ids() == old(self).query_ids(),
    {
        self.auth_role = role;
    }

    /// The tenant the session acts for.
    pub fn get_current_tenant(&self, conf: &QueryConfig) -> (tenant: String)
        ensures
            tenant@ == tenant_of(
                conf,
                &self.session_settings(),
                self.session_type(),
                self.tenant(),
            ),
    {
        if conf.internal_enable_sandbox_tenant {
            match &self.settings.sandbox_tenant {
                Some(sandbox_tenant) => {
                    if !sandbox_tenant.as_str().is_empty() {
                        return sandbox_tenant.clone();
                    }
                },
                None => {},
            }
        }
        let local: bool = match self.typ {
            SessionType::Local => true,
            _ => false,
        };
        if conf.management_mode || local {
            if !self.current_tenant.as_str().is_empty() {
                return self.current_tenant.clone();
            }
        }
        conf.tenant_id.clone()
    }

    pub fn set_current_tenant(&mut self, tenant: String)
        ensures
            final(self).tenant() == tenant@,
            final(self).catalog() == old(self).catalog(),
            final(self).database() == old(self).database(),
            final(self).session_type() == old(self).session_type(),
            final(self).session_settings() == old(self).session_settings(),
            final(self).query_ids() == old(self).query_ids(),
    {
        self.current_tenant = tenant;
    }

    pub fn get_current_user(&self) -> (user: &Option<UserInfo>)
        ensures
            *user == self.user(),
    {
        &self.current_user
    }

    /// Sets the user, once the connection is authenticated.
    pub fn set_current_user(&mut self, user: UserInfo)
        ensures
            final(self).user() == Some(user),
            final(self).role() == old(self).role(),
            final(self).query_ids() == old(self).query_ids(),
    {
        self.current_user = Some(user);
    }

    pub fn get_secondary_roles(&self) -> (roles: &Option<Vec<String>>)
        ensures
            *roles == self.roles_beside(),
    {
        &self.secondary_roles
    }

    pub fn set_secondary_roles(&mut self, secondary_roles: Option<Vec<String>>)
        ensures
            final(self).roles_beside() == secondary_roles,
            final(self).role() == old(self).role(),
            final(self).query_ids() == old(self).query_ids(),
    {
        self.secondary_roles = secondary_roles;
    }

    pub fn get_client_host(&self) -> (host: &Option<ClientHost>)
        ensures
            *host == self.host(),
    {
        &self.client_host
    }

    pub fn set_client_host(&mut self, sock: Option<ClientHost>)
        ensures
            final(self).host() == sock,
            final(self).query_ids() == old(self).query_ids(),
    {
        self.client_host = sock;
    }

    /// Adds a hook to run when the connection shuts down. Hooks run in the
    /// order they were set.
    pub fn set_io_shutdown_tx(&mut self, hook: u64)
        ensures
            final(self).shutdown_hooks() == Some(
                match old(self).shutdown_hooks() {
                    Some(hooks) => hooks.push(hook),
                    None => seq![hook],
                },
            ),
            final(self).query_ids() == old(self).query_ids(),
    {
        match self.io_shutdown_tx.take() {
            Some(mut hooks) => {
                hooks.push(hook);
                self.io_shutdown_tx = Some(hooks);
            },
            None => {
                let mut hooks: Vec<u64> = Vec::new();
                hooks.push(hook);
                self.io_shutdown_tx = Some(hooks);
            },
        }
    }

    /// Takes the hooks out of the session, which then has none.
    pub fn take_io_shutdown_tx(&mut self) -> (hooks: Option<Vec<u64>>)
        ensures
            final(self).shutdown_hooks() is None,
            match hooks {
                Some(h) => old(self).shutdown_hooks() == Some(h@),
                None => old(self).shutdown_hooks() is None,
            },
            final(self).query_ids() == old(self).query_ids(),
    {
        self.io_shutdown_tx.take()
    }

    /// The id of the query that runs, if one does.
    pub fn get_current_query_id(&self) -> (id: Option<String>)
        ensures
            match self.shared() {
                Some(shared) => id matches Some(i) && i@ == shared.init_query_id@,
                None => id is None,
            },
    {
        match &self.query_context_shared {
            Some(shared) => Some(shared.init_query_id.clone()),
            None => None,
        }
    }

    pub fn get_query_context_shared(&self) -> (shared: &Option<QueryContextShared>)
        ensures
            *shared == self.shared(),
    {
        &self.query_context_shared
    }

    pub fn set_query_context_shared(&mut self, ctx: Option<QueryContextShared>)
        ensures
            final(self).shared() == ctx,
            final(self).query_ids() == old(self).query_ids(),
    {
        self.query_context_shared = ctx;
    }

    /// The key of the cached result of a query of the session: that of the
    /// last entry with this id, case aside.
    pub fn get_query_result_cache_key(&self, query_id: &str) -> (key: Option<String>)
        ensures
            match last_match(self.query_ids(), query_id@) {
                Some(i) => key == self.query_ids()[i].1,
                None => key is None,
            },
    {
        let mut i: usize = self.query_ids_results.len();
        while i > 0
            invariant
                i <= self.query_ids_results.len(),
                forall|j: int|
                    i <= j < self.query_ids_results.len() ==> !matches_id(
                        #[trigger] self.query_ids_results@[j],
                        query_id@,
                    ),
            decreases i,
        {
            i = i - 1;
            if eq_ignore_ascii_case(self.query_ids_results[i].0.as_str(), query_id) {
                proof {
                    self.lemma_last_match(query_id@, i as int);
                }
                return self.query_ids_results[i].1.clone();
            }
        }
        None
    }

    /// An entry that matches with none behind it that does is the last
    /// match.
    proof fn lemma_last_match(&self, query_id: Seq<char>, i: int)
        requires
            0 <= i < self.query_ids().len(),
            matches_id(self.query_ids()[i], query_id),
            forall|j: int|
                i < j < self.query_ids().len() ==> !matches_id(
                    #[trigger] self.query_ids()[j],
                    query_id,
                ),
        ensures
            last_match(self.query_ids(), query_id) == Some(i),
    {
        let ids = self.query_ids();
        let found = choose|k: int|
            0 <= k < ids.len() && matches_id(#[trigger] ids[k], query_id) && forall|j: int|
                k < j < ids.len() ==> !matches_id(#[trigger] ids[j], query_id);
        if found < i {
            assert(!matches_id(ids[i], query_id));
        }
        if found > i {
            assert(!matches_id(ids[found], query_id));
        }
    }

    /// Notes a query and the key of its cached result. A query noted before
    /// keeps its entry; a key given for it is written at the place that lies
    /// as far from the start as the entry lies from the end. A query not
    /// noted before is added at the end.
    pub fn update_query_ids_results(&mut self, query_id: String, value: Option<String>)
        ensures
            final(self).same_but_queries(old(self)),
            match last_match(old(self).query_ids(), query_id@) {
                Some(i) => match value {
                    Some(v) => final(self).query_ids() == old(self).query_ids().update(
                        old(self).query_ids().len() - 1 - i,
                        (query_id, Some(v)),
                    ),
                    None => final(self).query_ids() == old(self).query_ids(),
                },
                None => final(self).query_ids() == old(self).query_ids().push((query_id, value)),
            },
    {
        let len: usize = self.query_ids_results.len();
        let mut idx: usize = 0;
        while idx < len
            invariant
                idx <= len,
                len == self.query_ids_results.len(),
                *self == *old(self),
                forall|j: int|
                    len - idx <= j < len ==> !matches_id(
                        #[trigger] self.query_ids_results@[j],
                        query_id@,
                    ),
            decreases len - idx,
        {
            let at: usize = len - 1 - idx;
            if eq_ignore_ascii_case(self.query_ids_results[at].0.as_str(), query_id.as_str()) {
                proof {
                    self.lemma_last_match(query_id@, at as int);
                }
                match value {
                    Some(v) => {
                        self.query_ids_results.set(idx, (query_id, Some(v)));
                    },
                    None => {},
                }
                return ;
            }
            idx = idx + 1;
        }
        self.query_ids_results.push((query_id, value));
    }

    /// The place, counted from the start, that a query index means among
    /// `len` queries: a negative index counts from the end. None where the
    /// index lies outside.
    pub open spec fn place_of(len: int, index: i32) -> Option<int> {
        let idx = if index < 0 {
            len + index
        } else {
            index as int
        };
        if idx < 0 || idx > len - 1 {
            None
        } else {
            Some(idx)
        }
    }

    /// The id of the query at an index; the empty text where there is none.
    pub fn get_last_query_id(&self, index: i32) -> (id: String)
        ensures
            match SessionContext::place_of(self.query_ids().len() as int, index) {
                Some(i) => id@ == self.query_ids()[i].0@,
                None => id@ == Seq::<char>::empty(),
            },
    {
        let len: usize = self.query_ids_results.len();
        let place: usize = if index < 0 {
            let back: u64 = (-(index as i64)) as u64;
            if back > len as u64 {
                return String::new();
            }
            len - (back as usize)
        } else {
            if (index as u64) >= (len as u64) {
                return String::new();
            }
            index as usize
        };
        if place >= len {
            return String::new();
        }
        self.query_ids_results[place].0.clone()
    }

    /// The ids of the queries of the session, each once.
    pub fn get_query_id_history(&self) -> (history: Vec<String>)
        ensures
            distinct_names(history@),
            forall|id: Seq<char>| #[trigger]
                lists_name(history@, id) <==> was_run(self.query_ids(), id),
    {
        let mut history: Vec<String> = Vec::new();
        let mut k: usize = 0;
        while k < self.query_ids_results.len()
            invariant
                k <= self.query_ids_results.len(),
                distinct_names(history@),
                forall|id: Seq<char>| #[trigger]
                    lists_name(history@, id) <==> was_run(
                        self.query_ids_results@.take(k as int),
                        id,
                    ),
            decreases self.query_ids_results.len() - k,
        {
            let id: &String = &self.query_ids_results[k].0;
            let mut seen: bool = false;
            let mut i: usize = 0;
            while i < history.len()
                invariant
                    i <= history.len(),
                    seen == (exists|t: int| 0 <= t < i && (#[trigger] history[t])@ == id@),
                decreases history.len() - i,
            {
                if history[i] == *id {
                    seen = true;
                }
                i = i + 1;
            }
            let ghost before = history@;
            if !seen {
                history.push(id.clone());
            }
            proof {
                let upto = self.query_ids_results@.take(k as int);
                let next = self.query_ids_results@.take(k + 1);
                assert forall|want: Seq<char>| #[trigger]
                    lists_name(history@, want) <==> was_run(next, want) by {
                    if lists_name(history@, want) {
                        let i = choose|i: int|
                            0 <= i < history.len() && (#[trigger] history[i])@ == want;
                        if i < before.len() {
                            assert(before[i]@ == want);
                            assert(lists_name(before, want));
                            let t = choose|t: int|
                                0 <= t < upto.len() && (#[trigger] upto[t]).0@ == want;
                            assert(next[t].0@ == want);
                        } else {
                            assert(next[k as int].0@ == want);
                        }
                    }
                    if was_run(next, want) {
                        let t = choose|t: int|
                            0 <= t < next.len() && (#[trigger] next[t]).0@ == want;
                        if t < k {
                            assert(upto[t].0@ == want);
                            assert(was_run(upto, want));
                            assert(lists_name(before, want));
                            let i = choose|i: int|
                                0 <= i < before.len() && (#[trigger] before[i])@ == want;
                            assert(history[i]@ == want);
                        } else {
                            if seen {
                                let i = choose|i: int|
                                    0 <= i < before.len() && (#[trigger] before[i])@ == id@;
                                assert(history[i]@ == want);
                            } else {
                                assert(history[before.len() as int]@ == want);
                            }
                        }
                    }
                }
            }
            k = k + 1;
        }
        proof {
            assert(self.query_ids_results@.take(self.query_ids_results.len() as int)
                == self.query_ids_results@);
        }
        history
    }
}

/// Whether a query of this id was run.
pub open spec fn was_run(ids: Seq<(String, Option<String>)>, id: Seq<char>) -> bool {
    exists|k: int| 0 <= k < ids.len() && (#[trigger] ids[k]).0@ == id
}

} // verus!
