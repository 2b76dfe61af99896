//! Client registry and control arbitration: an in-memory table of known
//! peers keyed by name, tracking per-peer server/observer flags and
//! which peer, if any, currently holds control of the shared aircraft.
//!
//! The arbitration invariant: at most one entry holds control at any
//! observation point, and names are unique. Every operation preserves
//! it.
use vstd::prelude::*;

use crate::messages::copy_bytes;

verus! {

/// One known peer: name (unique key), whether it is the hosting side,
/// whether it only observes, and whether it currently holds control.
#[derive(Clone, PartialEq, Eq, Debug)]
pub struct ClientInfo {
    pub name: Vec<u8>,
    pub is_server: bool,
    pub is_observer: bool,
    pub in_control: bool,
}

/// The mathematical model of one registry entry.
pub struct InfoV {
    pub name: Seq<u8>,
    pub is_server: bool,
    pub is_observer: bool,
    pub in_control: bool,
}

impl View for ClientInfo {
    type V = InfoV;

    open spec fn view(&self) -> InfoV {
        InfoV {
            name: self.name@,
            is_server: self.is_server,
            is_observer: self.is_observer,
            in_control: self.in_control,
        }
    }
}

pub open spec fn has_name(s: Seq<InfoV>, n: Seq<u8>) -> bool {
    exists|i: int| 0 <= i < s.len() && s[i].name == n
}

pub open spec fn names_unique(s: Seq<InfoV>) -> bool {
    forall|i: int, j: int| 0 <= i < j < s.len() ==> s[i].name != s[j].name
}

/// The arbitration invariant: no two entries hold control.
pub open spec fn at_most_one_control(s: Seq<InfoV>) -> bool {
    forall|i: int, j: int|
        0 <= i < s.len() && 0 <= j < s.len() && s[i].in_control && s[j].in_control ==> i == j
}

pub open spec fn registry_wf(s: Seq<InfoV>) -> bool {
    names_unique(s) && at_most_one_control(s)
}

pub open spec fn name_in_control(s: Seq<InfoV>, n: Seq<u8>) -> bool {
    exists|i: int| 0 <= i < s.len() && s[i].name == n && s[i].in_control
}

pub open spec fn name_is_server(s: Seq<InfoV>, n: Seq<u8>) -> bool {
    exists|i: int| 0 <= i < s.len() && s[i].name == n && s[i].is_server
}

pub open spec fn name_is_observer(s: Seq<InfoV>, n: Seq<u8>) -> bool {
    exists|i: int| 0 <= i < s.len() && s[i].name == n && s[i].is_observer
}

/// The registry: one entry per known peer, in join order.
pub struct ClientManager {
    clients: Vec<ClientInfo>,
}

impl View for ClientManager {
    type V = Seq<InfoV>;

    closed spec fn view(&self) -> Seq<InfoV> {
        self.clients@.map_values(|c: ClientInfo| c@)
    }
}

impl ClientManager {
    pub open spec fn wf(&self) -> bool {
        registry_wf(self@)
    }

    pub fn new() -> (r: Self)
        ensures
            r@ == Seq::<InfoV>::empty(),
            r.wf(),
    {
        let r = ClientManager { clients: Vec::new() };
        proof {
            assert(r@ =~= Seq::<InfoV>::empty());
        }
        r
    }

    /// Index of the entry named `n`, if any.
    fn find_index(&self, n: &Vec<u8>) -> (r: Option<usize>)
        ensures
            match r {
                Some(i) => i < self@.len() && self@[i as int].name == n@,
                None => !has_name(self@, n@),
            },
    {
        let mut i: usize = 0;
        while i < self.clients.len()
            invariant
                i <= self.clients.len(),
                self@.len() == self.clients.len(),
                forall|k: int| 0 <= k < i ==> self@[k].name != n@,
            decreases self.clients.len() - i,
        {
            if self.clients[i].name == *n {
                proof {
                    assert(self.clients[i as int].name@ =~= n@);
                }
                return Some(i);
            }
            proof {
                if self@[i as int].name == n@ {
                    assert(self.clients[i as int].name@ == n@);
                    assert(false);
                }
            }
            i += 1;
        }
        None
    }

    /// Whether a peer named `n` is registered.
    pub fn contains(&self, n: &Vec<u8>) -> (r: bool)
        ensures
            r == has_name(self@, n@),
    {
        match self.find_index(n) {
            Some(_) => true,
            None => false,
        }
    }

    /// Register a peer. A name already present is left untouched: the
    /// table holds one entry per name.
    pub fn add_client(&mut self, name: Vec<u8>)
        requires
            old(self).wf(),
        ensures
            final(self).wf(),
            has_name(old(self)@, name@) ==> final(self)@ == old(self)@,
            !has_name(old(self)@, name@) ==> final(self)@ == old(self)@.push(
                InfoV { name: name@, is_server: false, is_observer: false, in_control: false },
            ),
            final(self)@ == add_entry(old(self)@, name@),
    {
        match self.find_index(&name) {
            Some(_) => {},
            None => {
                let ghost pre = self@;
                let info = ClientInfo {
                    name,
                    is_server: false,
                    is_observer: false,
                    in_control: false,
                };
                let ghost infov = info@;
                self.clients.push(info);
                proof {
                    assert(self@ =~= pre.push(infov));
                }
            },
        }
    }

    /// Remove a peer. Without the name the table is unchanged.
    pub fn remove_client(&mut self, name: &Vec<u8>)
        ensures
            old(self).wf() ==> final(self).wf(),
            !has_name(old(self)@, name@) ==> final(self)@ == old(self)@,
            has_name(old(self)@, name@) ==> exists|i: int|
                0 <= i < old(self)@.len() && old(self)@[i].name == name@ && final(self)@ == old(
                    self,
                )@.remove(i),
            old(self).wf() ==> final(self)@ == remove_entry(old(self)@, name@),
    {
        match self.find_index(name) {
            Some(i) => {
                let ghost pre = self@;
                let ghost gi = i as int;
                self.clients.remove(i);
                proof {
                    assert(self@ =~= pre.remove(gi));
                    if registry_wf(pre) {
                        let k = choose|k: int| 0 <= k < pre.len() && pre[k].name == name@;
                        assert(k == gi);
                    }
                }
            },
            None => {},
        }
    }

    /// Set or clear the observer flag of the entry named `n`; no other
    /// field and no other entry changes. An absent name is a no-op.
    pub fn set_observer(&mut self, n: &Vec<u8>, observing: bool)
        requires
            old(self).wf(),
        ensures
            final(self).wf(),
            final(self)@.len() == old(self)@.len(),
            forall|j: int|
                #![trigger final(self)@[j]]
                0 <= j < old(self)@.len() ==> {
                    let pre = old(self)@[j];
                    let post = final(self)@[j];
                    post.name == pre.name && post.is_server == pre.is_server && post.in_control
                        == pre.in_control && post.is_observer == (if pre.name == n@ {
                        observing
                    } else {
                        pre.is_observer
                    })
                },
            final(self)@ == with_observer(old(self)@, n@, observing),
    {
        match self.find_index(n) {
            Some(i) => {
                let ghost pre = self@;
                let mut c = self.clients.remove(i);
                c.is_observer = observing;
                let ghost cv = c@;
                self.clients.insert(i, c);
                proof {
                    assert(self@ =~= pre.update(i as int, cv));
                    let target = with_observer(pre, n@, observing);
                    assert forall|j: int| 0 <= j < pre.len() implies #[trigger] self@[j]
                        == target[j] by {
                        let x = self@[j];
                        assert(x == InfoV {
                            name: x.name,
                            is_server: x.is_server,
                            is_observer: x.is_observer,
                            in_control: x.in_control,
                        });
                        if j != i as int {
                            assert(self@[j] == pre[j]);
                            assert(pre[j].name != n@);
                        }
                    }
                    assert(self@ =~= target);
                }
            },
            None => {
                proof {
                    let target = with_observer(self@, n@, observing);
                    assert forall|j: int| 0 <= j < self@.len() implies #[trigger] self@[j]
                        == target[j] by {
                        let x = self@[j];
                        assert(x == InfoV {
                            name: x.name,
                            is_server: x.is_server,
                            is_observer: x.is_observer,
                            in_control: x.in_control,
                        });
                        assert(self@[j].name != n@);
                    }
                    assert(self@ =~= target);
                }
            },
        }
    }

    /// Set or clear the server flag of the entry named `n`.
    pub fn set_server(&mut self, n: &Vec<u8>, server: bool)
        requires
            old(self).wf(),
        ensures
            final(self).wf(),
            final(self)@.len() == old(self)@.len(),
            forall|j: int|
                #![trigger final(self)@[j]]
                0 <= j < old(self)@.len() ==> {
                    let pre = old(self)@[j];
                    let post = final(self)@[j];
                    post.name == pre.name && post.is_observer == pre.is_observer && post.in_control
                        == pre.in_control && post.is_server == (if pre.name == n@ {
                        server
                    } else {
                        pre.is_server
                    })
                },
            final(self)@ == with_server(old(self)@, n@, server),
    {
        match self.find_index(n) {
            Some(i) => {
                let ghost pre = self@;
                let mut c = self.clients.remove(i);
                c.is_server = server;
                let ghost cv = c@;
                self.clients.insert(i, c);
                proof {
                    assert(self@ =~= pre.update(i as int, cv));
                    let target = with_server(pre, n@, server);
                    assert forall|j: int| 0 <= j < pre.len() implies #[trigger] self@[j]
                        == target[j] by {
                        let x = self@[j];
                        assert(x == InfoV {
                            name: x.name,
                            is_server: x.is_server,
                            is_observer: x.is_observer,
                            in_control: x.in_control,
                        });
                        if j != i as int {
                            assert(self@[j] == pre[j]);
                            assert(pre[j].name != n@);
                        }
                    }
                    assert(self@ =~= target);
                }
            },
            None => {
                proof {
                    let target = with_server(self@, n@, server);
                    assert forall|j: int| 0 <= j < self@.len() implies #[trigger] self@[j]
                        == target[j] by {
                        let x = self@[j];
                        assert(x == InfoV {
                            name: x.name,
                            is_server: x.is_server,
                            is_observer: x.is_observer,
                            in_control: x.in_control,
                        });
                        assert(self@[j].name != n@);
                    }
                    assert(self@ =~= target);
                }
            },
        }
    }

    /// Arbitration: make the peer named `n` the sole controller. Every
    /// other entry's control bit is cleared first, so no observation
    /// point ever shows two controllers.
    pub fn set_client_control(&mut self, n: &Vec<u8>)
        ensures
            old(self).wf() ==> final(self).wf(),
            final(self)@.len() == old(self)@.len(),
            forall|j: int|
                #![trigger final(self)@[j]]
                0 <= j < old(self)@.len() ==> {
                    let pre = old(self)@[j];
                    let post = final(self)@[j];
                    post.name == pre.name && post.is_server == pre.is_server && post.is_observer
                        == pre.is_observer && post.in_control == (pre.name == n@)
                },
            final(self)@ == ctrl_to(old(self)@, n@),
    {
        let mut i: usize = 0;
        let ghost pre = self@;
        while i < self.clients.len()
            invariant
                i <= self.clients.len(),
                self@.len() == pre.len(),
                self.clients.len() == pre.len(),
                forall|j: int|
                    #![trigger self@[j]]
                    0 <= j < pre.len() ==> {
                        let post = self@[j];
                        post.name == pre[j].name && post.is_server == pre[j].is_server
                            && post.is_observer == pre[j].is_observer
                    },
                forall|j: int| 0 <= j < i ==> #[trigger] self@[j].in_control == (pre[j].name
                    == n@),
                forall|j: int|
                    i <= j < pre.len() ==> #[trigger] self@[j].in_control
                        == pre[j].in_control,
            decreases self.clients.len() - i,
        {
            let take = self.clients[i].name == *n;
            proof {
                if take {
                    assert(self.clients[i as int].name@ =~= n@);
                } else {
                    if self@[i as int].name == n@ {
                        assert(self.clients[i as int].name@ == n@);
                        assert(false);
                    }
                }
            }
            let ghost looppre = self@;
            let ghost gi = i as int;
            let mut c = self.clients.remove(i);
            c.in_control = take;
            let ghost cv = c@;
            self.clients.insert(i, c);
            proof {
                assert(self@ =~= looppre.update(gi, cv));
                assert(cv.name == looppre[gi].name);
                assert forall|j: int| 0 <= j < pre.len() implies {
                    let post = #[trigger] self@[j];
                    post.name == pre[j].name && post.is_server == pre[j].is_server
                        && post.is_observer == pre[j].is_observer
                } by {
                    if j == gi {
                        assert(self@[j] == cv);
                    } else {
                        assert(self@[j] == looppre[j]);
                    }
                }
            }
            i += 1;
        }
        proof {
            assert forall|j: int| 0 <= j < pre.len() implies #[trigger] self@[j] == ctrl_to(
                pre,
                n@,
            )[j] by {
                let post = self@[j];
                assert(post.name == pre[j].name && post.is_server == pre[j].is_server
                    && post.is_observer == pre[j].is_observer);
                assert(post.in_control == (pre[j].name == n@));
                assert(post == InfoV {
                    name: post.name,
                    is_server: post.is_server,
                    is_observer: post.is_observer,
                    in_control: post.in_control,
                });
            }
            assert(self@ =~= ctrl_to(pre, n@));
        }
    }

    /// Clear control everywhere: afterwards no peer holds control.
    pub fn set_no_control(&mut self)
        ensures
            old(self).wf() ==> final(self).wf(),
            final(self)@.len() == old(self)@.len(),
            forall|j: int|
                #![trigger final(self)@[j]]
                0 <= j < old(self)@.len() ==> {
                    let pre = old(self)@[j];
                    let post = final(self)@[j];
                    post.name == pre.name && post.is_server == pre.is_server && post.is_observer
                        == pre.is_observer && !post.in_control
                },
            final(self)@ == clear_control(old(self)@),
    {
        let mut i: usize = 0;
        let ghost pre = self@;
        while i < self.clients.len()
            invariant
                i <= self.clients.len(),
                self@.len() == pre.len(),
                self.clients.len() == pre.len(),
                forall|j: int|
                    #![trigger self@[j]]
                    0 <= j < pre.len() ==> {
                        let post = self@[j];
                        post.name == pre[j].name && post.is_server == pre[j].is_server
                            && post.is_observer == pre[j].is_observer
                    },
                forall|j: int| 0 <= j < i ==> !#[trigger] self@[j].in_control,
                forall|j: int|
                    i <= j < pre.len() ==> #[trigger] self@[j].in_control
                        == pre[j].in_control,
            decreases self.clients.len() - i,
        {
            let ghost looppre = self@;
            let ghost gi = i as int;
            let mut c = self.clients.remove(i);
            c.in_control = false;
            let ghost cv = c@;
            self.clients.insert(i, c);
            proof {
                assert(self@ =~= looppre.update(gi, cv));
                assert(cv.name == looppre[gi].name);
                assert forall|j: int| 0 <= j < pre.len() implies {
                    let post = #[trigger] self@[j];
                    post.name == pre[j].name && post.is_server == pre[j].is_server
                        && post.is_observer == pre[j].is_observer
                } by {
                    if j == gi {
                        assert(self@[j] == cv);
                    } else {
                        assert(self@[j] == looppre[j]);
                    }
                }
            }
            i += 1;
        }
        proof {
            let target = clear_control(pre);
            assert forall|j: int| 0 <= j < pre.len() implies #[trigger] self@[j] == target[j] by {
                let x = self@[j];
                assert(x == InfoV {
                    name: x.name,
                    is_server: x.is_server,
                    is_observer: x.is_observer,
                    in_control: x.in_control,
                });
            }
            assert(self@ =~= target);
        }
    }

    /// Does the peer named `n` currently hold control?
    pub fn client_has_control(&self, n: &Vec<u8>) -> (r: bool)
        requires
            self.wf(),
        ensures
            r == name_in_control(self@, n@),
    {
        match self.find_index(n) {
            Some(i) => {
                let r = self.clients[i].in_control;
                proof {
                    if r {
                        assert(name_in_control(self@, n@));
                    } else if name_in_control(self@, n@) {
                        let k = choose|k: int|
                            0 <= k < self@.len() && self@[k].name == n@ && self@[k].in_control;
                        assert(k == i as int);
                    }
                }
                r
            },
            None => {
                proof {
                    if name_in_control(self@, n@) {
                        let k = choose|k: int|
                            0 <= k < self@.len() && self@[k].name == n@ && self@[k].in_control;
                        assert(has_name(self@, n@));
                    }
                }
                false
            },
        }
    }

    /// Is the peer named `n` the hosting side?
    pub fn client_is_server(&self, n: &Vec<u8>) -> (r: bool)
        requires
            self.wf(),
        ensures
            r == name_is_server(self@, n@),
    {
        match self.find_index(n) {
            Some(i) => {
                let r = self.clients[i].is_server;
                proof {
                    if !r && name_is_server(self@, n@) {
                        let k = choose|k: int|
                            0 <= k < self@.len() && self@[k].name == n@ && self@[k].is_server;
                        assert(k == i as int);
                    }
                }
                r
            },
            None => {
                proof {
                    if name_is_server(self@, n@) {
                        let k = choose|k: int|
                            0 <= k < self@.len() && self@[k].name == n@ && self@[k].is_server;
                        assert(has_name(self@, n@));
                    }
                }
                false
            },
        }
    }

    /// Is the peer named `n` an observer? An unknown peer is not.
    pub fn is_observer(&self, n: &Vec<u8>) -> (r: bool)
        requires
            self.wf(),
        ensures
            r == name_is_observer(self@, n@),
    {
        match self.find_index(n) {
            Some(i) => {
                let r = self.clients[i].is_observer;
                proof {
                    if !r && name_is_observer(self@, n@) {
                        let k = choose|k: int|
                            0 <= k < self@.len() && self@[k].name == n@ && self@[k].is_observer;
                        assert(k == i as int);
                    }
                }
                r
            },
            None => {
                proof {
                    if name_is_observer(self@, n@) {
                        let k = choose|k: int|
                            0 <= k < self@.len() && self@[k].name == n@ && self@[k].is_observer;
                        assert(has_name(self@, n@));
                    }
                }
                false
            },
        }
    }

    /// The name of the controller, if any peer holds control.
    pub fn get_client_in_control(&self) -> (r: Option<Vec<u8>>)
        ensures
            match r {
                Some(n) => name_in_control(self@, n@),
                None => forall|i: int| 0 <= i < self@.len() ==> !self@[i].in_control,
            },
    {
        let mut i: usize = 0;
        while i < self.clients.len()
            invariant
                i <= self.clients.len(),
                self@.len() == self.clients.len(),
                forall|k: int| 0 <= k < i ==> !self@[k].in_control,
            decreases self.clients.len() - i,
        {
            if self.clients[i].in_control {
                let r = copy_bytes(&self.clients[i].name);
                proof {
                    assert(self@[i as int].name == r@ && self@[i as int].in_control);
                }
                return Some(r);
            }
            i += 1;
        }
        None
    }

    /// How many peers are registered.
    pub fn get_number_clients(&self) -> (r: usize)
        ensures
            r == self@.len(),
    {
        self.clients.len()
    }

    /// Forget every peer, e.g. when a session ends.
    pub fn reset(&mut self)
        ensures
            final(self)@ == Seq::<InfoV>::empty(),
            final(self).wf(),
    {
        self.clients.clear();
        proof {
            assert(self@ =~= Seq::<InfoV>::empty());
        }
    }
}

// ---------------------------------------------------------------------
// Arbitration laws
// ---------------------------------------------------------------------

/// The state after the peer named `n` leaves. On a well-formed registry
/// the matching entry is unique, so this pins the result exactly.
pub open spec fn remove_entry(s: Seq<InfoV>, n: Seq<u8>) -> Seq<InfoV> {
    if has_name(s, n) {
        s.remove(choose|i: int| 0 <= i < s.len() && s[i].name == n)
    } else {
        s
    }
}

/// The state after a peer registers: one new default entry, unless the
/// name is already taken.
pub open spec fn add_entry(s: Seq<InfoV>, n: Seq<u8>) -> Seq<InfoV> {
    if has_name(s, n) {
        s
    } else {
        s.push(InfoV { name: n, is_server: false, is_observer: false, in_control: false })
    }
}

/// The state after setting the observer flag of the entry named `n`.
pub open spec fn with_observer(s: Seq<InfoV>, n: Seq<u8>, v: bool) -> Seq<InfoV> {
    Seq::new(
        s.len(),
        |j: int|
            InfoV {
                name: s[j].name,
                is_server: s[j].is_server,
                is_observer: if s[j].name == n {
                    v
                } else {
                    s[j].is_observer
                },
                in_control: s[j].in_control,
            },
    )
}

/// The state after setting the server flag of the entry named `n`.
pub open spec fn with_server(s: Seq<InfoV>, n: Seq<u8>, v: bool) -> Seq<InfoV> {
    Seq::new(
        s.len(),
        |j: int|
            InfoV {
                name: s[j].name,
                is_server: if s[j].name == n {
                    v
                } else {
                    s[j].is_server
                },
                is_observer: s[j].is_observer,
                in_control: s[j].in_control,
            },
    )
}

/// The state after clearing control everywhere.
pub open spec fn clear_control(s: Seq<InfoV>) -> Seq<InfoV> {
    Seq::new(
        s.len(),
        |j: int|
            InfoV {
                name: s[j].name,
                is_server: s[j].is_server,
                is_observer: s[j].is_observer,
                in_control: false,
            },
    )
}

/// Clearing control twice is clearing it once.
pub proof fn lemma_clear_control_idempotent(s: Seq<InfoV>)
    ensures
        clear_control(clear_control(s)) == clear_control(s),
{
    assert(clear_control(clear_control(s)) =~= clear_control(s));
}

/// The state after making `n` the sole controller: control bits are a
/// function of the names alone, everything else is untouched.
pub open spec fn ctrl_to(s: Seq<InfoV>, n: Seq<u8>) -> Seq<InfoV> {
    Seq::new(
        s.len(),
        |j: int|
            InfoV {
                name: s[j].name,
                is_server: s[j].is_server,
                is_observer: s[j].is_observer,
                in_control: s[j].name == n,
            },
    )
}

/// Control handoff is idempotent: handing control to the same peer a
/// second time leaves the registry in the identical state.
pub proof fn lemma_ctrl_to_idempotent(s: Seq<InfoV>, n: Seq<u8>)
    ensures
        ctrl_to(ctrl_to(s, n), n) == ctrl_to(s, n),
{
    assert(ctrl_to(ctrl_to(s, n), n) =~= ctrl_to(s, n));
}

/// Making one peer the controller never leaves two controllers, and
/// touches no name.
pub proof fn lemma_ctrl_to_wf(s: Seq<InfoV>, n: Seq<u8>)
    requires
        registry_wf(s),
    ensures
        registry_wf(ctrl_to(s, n)),
{
}

/// Registering a peer keeps names unique and adds no controller.
pub proof fn lemma_add_entry_wf(s: Seq<InfoV>, n: Seq<u8>)
    requires
        registry_wf(s),
    ensures
        registry_wf(add_entry(s, n)),
{
}

/// Dropping a peer keeps names unique and at most one controller.
pub proof fn lemma_remove_entry_wf(s: Seq<InfoV>, n: Seq<u8>)
    requires
        registry_wf(s),
    ensures
        registry_wf(remove_entry(s, n)),
{
    if has_name(s, n) {
        let i = choose|i: int| 0 <= i < s.len() && s[i].name == n;
        let r = s.remove(i);
        assert forall|p: int, q: int| 0 <= p < q < r.len() implies r[p].name != r[q].name by {
            assert(r[p] == (if p < i { s[p] } else { s[p + 1] }));
            assert(r[q] == (if q < i { s[q] } else { s[q + 1] }));
        }
        assert forall|p: int, q: int|
            0 <= p < r.len() && 0 <= q < r.len() && r[p].in_control && r[q].in_control implies p
            == q by {
            assert(r[p] == (if p < i { s[p] } else { s[p + 1] }));
            assert(r[q] == (if q < i { s[q] } else { s[q + 1] }));
        }
    }
}

/// Flag updates touch neither names nor control bits.
pub proof fn lemma_with_observer_wf(s: Seq<InfoV>, n: Seq<u8>, v: bool)
    requires
        registry_wf(s),
    ensures
        registry_wf(with_observer(s, n, v)),
{
}

pub proof fn lemma_with_server_wf(s: Seq<InfoV>, n: Seq<u8>, v: bool)
    requires
        registry_wf(s),
    ensures
        registry_wf(with_server(s, n, v)),
{
}

/// Clearing control keeps names unique and leaves no controller at all.
pub proof fn lemma_clear_control_wf(s: Seq<InfoV>)
    requires
        registry_wf(s),
    ensures
        registry_wf(clear_control(s)),
{
}

} // verus!