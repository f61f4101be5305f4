//! The menu-state engine: computes the change fingerprint over the
//! aggregated session views, decides whether the visible menu must be
//! rebuilt, and allocates a process-unique identifier for every menu entity
//! of a rebuild. The native toolkit renders the tree this engine computes;
//! the engine itself never touches it.

use vstd::prelude::*;

use crate::fingerprint::{compute_fingerprint, fingerprint_spec};
use crate::ident::{counter_val, lemma_uid_counter, uid_spec};
use crate::numeral::dec;
use crate::types::{ModelInfo, ProviderInfo, SessionInfo};
use crate::u64_to_string;

verus! {

/// One clickable or informational line of the menu.
#[derive(Debug, Clone, PartialEq)]
pub struct MenuEntry {
    pub id: String,
    pub label: String,
    pub enabled: bool,
}

/// One top-level node of the menu: a plain entry, or a collapsible group of
/// entries for one session.
#[derive(Debug, Clone, PartialEq)]
pub enum MenuNode {
    Entry(MenuEntry),
    Group { id: String, label: String, entries: Vec<MenuEntry> },
}

/// A full menu tree, replacing the visible menu atomically on rebuild.
#[derive(Debug, Clone, PartialEq)]
pub struct MenuTree {
    pub nodes: Vec<MenuNode>,
}

/// The mathematical shape of a menu entry.
pub struct MenuEntryModel {
    pub id: Seq<char>,
    pub label: Seq<char>,
    pub enabled: bool,
}

/// The mathematical shape of a top-level menu node.
pub enum MenuNodeModel {
    Entry(MenuEntryModel),
    Group { id: Seq<char>, label: Seq<char>, entries: Seq<MenuEntryModel> },
}

impl View for MenuEntry {
    type V = MenuEntryModel;

    open spec fn view(&self) -> MenuEntryModel {
        MenuEntryModel { id: self.id@, label: self.label@, enabled: self.enabled }
    }
}

impl View for MenuNode {
    type V = MenuNodeModel;

    open spec fn view(&self) -> MenuNodeModel {
        match self {
            MenuNode::Entry(e) => MenuNodeModel::Entry(e@),
            MenuNode::Group { id, label, entries } => MenuNodeModel::Group {
                id: id@,
                label: label@,
                entries: entries@.map_values(|e: MenuEntry| e@),
            },
        }
    }
}

impl View for MenuTree {
    type V = Seq<MenuNodeModel>;

    open spec fn view(&self) -> Seq<MenuNodeModel> {
        self.nodes@.map_values(|n: MenuNode| n@)
    }
}

/// One (provider, model) pair of the flattened catalog.
#[derive(Debug, Clone, PartialEq)]
pub struct CatalogPair {
    pub provider: String,
    pub model_id: String,
    pub model_label: String,
}

/// The mathematical shape of a flattened catalog pair.
pub struct CatalogPairModel {
    pub provider: Seq<char>,
    pub model_id: Seq<char>,
    pub model_label: Seq<char>,
}

impl View for CatalogPair {
    type V = CatalogPairModel;

    open spec fn view(&self) -> CatalogPairModel {
        CatalogPairModel {
            provider: self.provider@,
            model_id: self.model_id@,
            model_label: self.model_label@,
        }
    }
}

/// The pairs one provider contributes to the flattened catalog, in order.
pub open spec fn provider_pairs(p: ProviderInfo) -> Seq<CatalogPairModel> {
    p.models@.map_values(
        |m: ModelInfo| CatalogPairModel {
            provider: p.name@,
            model_id: m.id@,
            model_label: m.label@,
        },
    )
}

/// The catalog flattened to (provider, model) pairs, provider order kept.
pub open spec fn flat_models(ps: Seq<ProviderInfo>) -> Seq<CatalogPairModel>
    decreases ps.len(),
{
    if ps.len() == 0 {
        Seq::empty()
    } else {
        flat_models(ps.drop_last()) + provider_pairs(ps.last())
    }
}

/// The characters an optional string shows, with `?` for an absent value.
pub open spec fn opt_or_q(o: Option<String>) -> Seq<char> {
    match o {
        Option::Some(s) => s@,
        Option::None => "?"@,
    }
}

/// The status half of a session's group label: `provider/model` when
/// switched, the native-mode placeholder otherwise.
pub open spec fn current_model_label(s: SessionInfo) -> Seq<char> {
    if s.switched {
        opt_or_q(s.provider) + "/"@ + opt_or_q(s.model)
    } else {
        "Native (default)"@
    }
}

/// A session group's label: the session identifier truncated to eight
/// characters, then the status half.
pub open spec fn session_label(s: SessionInfo) -> Seq<char> {
    let sid = s.session_id@;
    let shown = if sid.len() <= 8 {
        sid
    } else {
        sid.take(8)
    };
    shown + " - "@ + current_model_label(s)
}

/// The action string a switch entry encodes, before its uniqueness suffix:
/// `switch:<controlPort>:<sessionId>:<provider>:<model>`.
pub open spec fn switch_action(s: SessionInfo, p: CatalogPairModel) -> Seq<char> {
    "switch:"@ + dec(s.control_port as nat) + ":"@ + s.session_id@ + ":"@ + p.provider + ":"@
        + p.model_id
}

/// The action string a revert entry encodes, before its uniqueness suffix:
/// `revert:<controlPort>:<sessionId>`.
pub open spec fn revert_action(s: SessionInfo) -> Seq<char> {
    "revert:"@ + dec(s.control_port as nat) + ":"@ + s.session_id@
}

/// The switch entries of one session's group, one per catalog pair, with
/// counters allocated in order from `c`.
pub open spec fn switch_entries_model(s: SessionInfo, fm: Seq<CatalogPairModel>, c: nat) -> Seq<
    MenuEntryModel,
>
    decreases fm.len(),
{
    if fm.len() == 0 {
        Seq::empty()
    } else {
        switch_entries_model(s, fm.drop_last(), c) + seq![
            MenuEntryModel {
                id: uid_spec(switch_action(s, fm.last()), (c + fm.len() - 1) as nat),
                label: fm.last().provider + " / "@ + fm.last().model_label,
                enabled: true,
            },
        ]
    }
}

/// The revert entry of a switched session's group.
pub open spec fn revert_entry_model(s: SessionInfo, c: nat) -> MenuEntryModel {
    MenuEntryModel { id: uid_spec(revert_action(s), c), label: "Revert to Native"@, enabled: true }
}

/// How many identifiers one session's group takes: the group itself, one
/// switch entry per pair, and a revert entry when switched.
pub open spec fn group_size(s: SessionInfo, fm: Seq<CatalogPairModel>) -> nat {
    1 + fm.len() + if s.switched {
        1nat
    } else {
        0nat
    }
}

/// One session's group: its own identifier first, then its entries.
pub open spec fn group_model(s: SessionInfo, fm: Seq<CatalogPairModel>, c: nat) -> MenuNodeModel {
    MenuNodeModel::Group {
        id: uid_spec("session_"@ + s.session_id@, c),
        label: session_label(s),
        entries: switch_entries_model(s, fm, c + 1) + if s.switched {
            seq![revert_entry_model(s, (c + 1 + fm.len()) as nat)]
        } else {
            Seq::empty()
        },
    }
}

/// How many identifiers the groups of all sessions take together.
pub open spec fn groups_size(ss: Seq<SessionInfo>, fm: Seq<CatalogPairModel>) -> nat
    decreases ss.len(),
{
    if ss.len() == 0 {
        0
    } else {
        groups_size(ss.drop_last(), fm) + group_size(ss.last(), fm)
    }
}

/// The groups of all sessions in order, counters allocated group by group.
pub open spec fn groups_model(ss: Seq<SessionInfo>, fm: Seq<CatalogPairModel>, c: nat) -> Seq<
    MenuNodeModel,
>
    decreases ss.len(),
{
    if ss.len() == 0 {
        Seq::empty()
    } else {
        groups_model(ss.drop_last(), fm, c) + seq![
            group_model(ss.last(), fm, c + groups_size(ss.drop_last(), fm)),
        ]
    }
}

/// How many identifiers a full rebuild takes.
pub open spec fn menu_size(ss: Seq<SessionInfo>, fm: Seq<CatalogPairModel>) -> nat {
    2 + if ss.len() == 0 {
        1nat
    } else {
        groups_size(ss, fm)
    }
}

/// The full menu of a rebuild: a disabled header, then either a disabled
/// placeholder (no sessions) or one group per session, then a quit entry.
pub open spec fn menu_model(ss: Seq<SessionInfo>, fm: Seq<CatalogPairModel>, c: nat) -> Seq<
    MenuNodeModel,
> {
    let header = MenuNodeModel::Entry(
        MenuEntryModel { id: uid_spec("header"@, c), label: "oh-my-proxy"@, enabled: false },
    );
    if ss.len() == 0 {
        seq![header] + seq![
            MenuNodeModel::Entry(
                MenuEntryModel {
                    id: uid_spec("no_sessions"@, c + 1),
                    label: "No sessions running"@,
                    enabled: false,
                },
            ),
            MenuNodeModel::Entry(
                MenuEntryModel { id: uid_spec("quit"@, c + 2), label: "Quit"@, enabled: true },
            ),
        ]
    } else {
        seq![header] + groups_model(ss, fm, c + 1) + seq![
            MenuNodeModel::Entry(
                MenuEntryModel {
                    id: uid_spec("quit"@, c + 1 + groups_size(ss, fm)),
                    label: "Quit"@,
                    enabled: true,
                },
            ),
        ]
    }
}

/// Flatten the provider catalog to (provider, model) pairs, provider order
/// kept.
pub fn flatten_catalog(ps: &Vec<ProviderInfo>) -> (r: Vec<CatalogPair>)
    ensures
        r@.map_values(|c: CatalogPair| c@) == flat_models(ps@),
{
    let mut r: Vec<CatalogPair> = Vec::new();
    proof {
        assert(r@.map_values(|c: CatalogPair| c@) =~= flat_models(ps@.take(0)));
    }
    let mut i: usize = 0;
    while i < ps.len()
        invariant
            i <= ps.len(),
            r@.map_values(|c: CatalogPair| c@) == flat_models(ps@.take(i as int)),
        decreases ps.len() - i,
    {
        let p = &ps[i];
        let mut j: usize = 0;
        while j < p.models.len()
            invariant
                i < ps.len(),
                j <= p.models.len(),
                p == &ps[i as int],
                r@.map_values(|c: CatalogPair| c@) == flat_models(ps@.take(i as int))
                    + provider_pairs(ps@[i as int]).take(j as int),
            decreases p.models.len() - j,
        {
            let m = &p.models[j];
            let ghost r0 = r@.map_values(|c: CatalogPair| c@);
            r.push(
                CatalogPair {
                    provider: p.name.clone(),
                    model_id: m.id.clone(),
                    model_label: m.label.clone(),
                },
            );
            proof {
                assert(r@.map_values(|c: CatalogPair| c@) =~= r0.push(r@.last()@));
                assert(provider_pairs(ps@[i as int])[j as int] == r@.last()@);
                assert(provider_pairs(ps@[i as int]).take(j + 1) =~= provider_pairs(
                    ps@[i as int],
                ).take(j as int).push(provider_pairs(ps@[i as int])[j as int]));
                assert(r@.map_values(|c: CatalogPair| c@) =~= flat_models(ps@.take(i as int))
                    + provider_pairs(ps@[i as int]).take(j + 1));
            }
            j += 1;
        }
        proof {
            assert(provider_pairs(ps@[i as int]).take(p.models@.len() as int) =~= provider_pairs(
                ps@[i as int],
            ));
            assert(ps@.take(i + 1).drop_last() =~= ps@.take(i as int));
            assert(ps@.take(i + 1).last() == ps@[i as int]);
        }
        i += 1;
    }
    proof {
        assert(ps@.take(ps@.len() as int) =~= ps@);
    }
    r
}

/// Build the action string of a switch entry, before its uniqueness suffix.
fn switch_action_exec(s: &SessionInfo, p: &CatalogPair) -> (r: String)
    ensures
        r@ == switch_action(*s, p@),
{
    let mut a = String::from_str("switch:");
    let d = u64_to_string(s.control_port as u64);
    a.append(d.as_str());
    a.append(":");
    a.append(s.session_id.as_str());
    a.append(":");
    a.append(p.provider.as_str());
    a.append(":");
    a.append(p.model_id.as_str());
    proof {
        assert(a@ =~= switch_action(*s, p@));
    }
    a
}

/// Build the action string of a revert entry, before its uniqueness suffix.
fn revert_action_exec(s: &SessionInfo) -> (r: String)
    ensures
        r@ == revert_action(*s),
{
    let mut a = String::from_str("revert:");
    let d = u64_to_string(s.control_port as u64);
    a.append(d.as_str());
    a.append(":");
    a.append(s.session_id.as_str());
    proof {
        assert(a@ =~= revert_action(*s));
    }
    a
}

/// Build a session group's label: the truncated session identifier and the
/// current status half.
fn session_label_exec(s: &SessionInfo) -> (r: String)
    ensures
        r@ == session_label(*s),
{
    let n = s.session_id.as_str().unicode_len();
    let shown = if n <= 8 {
        s.session_id.as_str().substring_char(0, n)
    } else {
        s.session_id.as_str().substring_char(0, 8)
    };
    proof {
        if n <= 8 {
            assert(shown@ =~= s.session_id@);
        }
    }
    let mut a = String::from_str(shown);
    a.append(" - ");
    if s.switched {
        match &s.provider {
            Option::Some(p) => a.append(p.as_str()),
            Option::None => a.append("?"),
        }
        a.append("/");
        match &s.model {
            Option::Some(m) => a.append(m.as_str()),
            Option::None => a.append("?"),
        }
    } else {
        a.append("Native (default)");
    }
    proof {
        assert(a@ =~= session_label(*s));
    }
    a
}

/// The menu-state engine's state across reconciliation passes: the cached
/// fingerprint of the visible menu, and the identifier counter, which only
/// ever grows and is never reset or reused.
#[derive(Debug, Clone, PartialEq)]
pub struct MenuStateEngine {
    pub counter: u64,
    pub last_fingerprint: String,
}

impl MenuStateEngine {
    /// A fresh engine: counter at zero, fingerprint of an empty list.
    pub fn new() -> (e: MenuStateEngine)
        ensures
            e.counter == 0,
            e.last_fingerprint@ == Seq::<char>::empty(),
    {
        MenuStateEngine { counter: 0, last_fingerprint: String::new() }
    }

    /// Allocate one identifier: the base with the next counter value
    /// appended. The counter only grows, so no two allocations of one
    /// engine ever return the same identifier.
    pub fn uid(&mut self, base: &str) -> (r: String)
        requires
            old(self).counter < u64::MAX,
        ensures
            r@ == uid_spec(base@, old(self).counter as nat),
            final(self).counter == old(self).counter + 1,
            final(self).last_fingerprint == old(self).last_fingerprint,
    {
        let mut s = String::from_str(base);
        s.append("_");
        let d = u64_to_string(self.counter);
        s.append(d.as_str());
        self.counter = self.counter + 1;
        proof {
            assert(s@ =~= uid_spec(base@, (final(self).counter - 1) as nat));
        }
        s
    }

    /// Build the switch entries of one session's group, one per catalog
    /// pair, in catalog order.
    fn build_switch_entries(&mut self, s: &SessionInfo, pairs: &Vec<CatalogPair>) -> (es: Vec<
        MenuEntry,
    >)
        requires
            old(self).counter + pairs@.len() <= u64::MAX,
        ensures
            final(self).counter == old(self).counter + pairs@.len(),
            final(self).last_fingerprint == old(self).last_fingerprint,
            es@.map_values(|e: MenuEntry| e@) == switch_entries_model(
                *s,
                pairs@.map_values(|c: CatalogPair| c@),
                old(self).counter as nat,
            ),
    {
        let ghost fm = pairs@.map_values(|c: CatalogPair| c@);
        let ghost c0 = self.counter as nat;
        let mut es: Vec<MenuEntry> = Vec::new();
        proof {
            assert(es@.map_values(|e: MenuEntry| e@) =~= switch_entries_model(*s, fm.take(0), c0));
        }
        let mut k: usize = 0;
        while k < pairs.len()
            invariant
                k <= pairs.len(),
                fm == pairs@.map_values(|c: CatalogPair| c@),
                c0 + pairs@.len() <= u64::MAX,
                self.counter as nat == c0 + k,
                self.last_fingerprint == old(self).last_fingerprint,
                es@.map_values(|e: MenuEntry| e@) == switch_entries_model(
                    *s,
                    fm.take(k as int),
                    c0,
                ),
            decreases pairs.len() - k,
        {
            let p = &pairs[k];
            let action = switch_action_exec(s, p);
            let mut label = p.provider.clone();
            label.append(" / ");
            label.append(p.model_label.as_str());
            let id = self.uid(action.as_str());
            let ghost es0 = es@.map_values(|e: MenuEntry| e@);
            es.push(MenuEntry { id, label, enabled: true });
            proof {
                assert(es@.map_values(|e: MenuEntry| e@) =~= es0.push(es@.last()@));
                assert(fm.take(k + 1).drop_last() =~= fm.take(k as int));
                assert(fm.take(k + 1).last() == fm[k as int]);
                assert(es@.last()@.label =~= fm[k as int].provider + " / "@ + fm[
                    k as int
                ].model_label);
                assert(es@.map_values(|e: MenuEntry| e@) =~= switch_entries_model(
                    *s,
                    fm.take(k + 1),
                    c0,
                ));
            }
            k += 1;
        }
        proof {
            assert(fm.take(fm.len() as int) =~= fm);
        }
        es
    }

    /// Build one session's collapsible group: the group identifier first,
    /// then its switch entries, then a revert entry when switched.
    fn build_group(&mut self, s: &SessionInfo, pairs: &Vec<CatalogPair>) -> (g: MenuNode)
        requires
            old(self).counter + group_size(*s, pairs@.map_values(|c: CatalogPair| c@))
                <= u64::MAX,
        ensures
            final(self).counter == old(self).counter + group_size(
                *s,
                pairs@.map_values(|c: CatalogPair| c@),
            ),
            final(self).last_fingerprint == old(self).last_fingerprint,
            g@ == group_model(
                *s,
                pairs@.map_values(|c: CatalogPair| c@),
                old(self).counter as nat,
            ),
    {
        let ghost fm = pairs@.map_values(|c: CatalogPair| c@);
        let mut base = String::from_str("session_");
        base.append(s.session_id.as_str());
        proof {
            assert(base@ =~= "session_"@ + s.session_id@);
        }
        let id = self.uid(base.as_str());
        let label = session_label_exec(s);
        let mut entries = self.build_switch_entries(s, pairs);
        if s.switched {
            let action = revert_action_exec(s);
            let rid = self.uid(action.as_str());
            let ghost e0 = entries@.map_values(|e: MenuEntry| e@);
            entries.push(
                MenuEntry { id: rid, label: String::from_str("Revert to Native"), enabled: true },
            );
            proof {
                assert(entries@.map_values(|e: MenuEntry| e@) =~= e0.push(entries@.last()@));
                assert(entries@.map_values(|e: MenuEntry| e@) =~= switch_entries_model(
                    *s,
                    fm,
                    old(self).counter as nat + 1,
                ) + seq![revert_entry_model(*s, (old(self).counter + 1 + fm.len()) as nat)]);
            }
        } else {
            proof {
                assert(entries@.map_values(|e: MenuEntry| e@) =~= switch_entries_model(
                    *s,
                    fm,
                    old(self).counter as nat + 1,
                ) + Seq::<MenuEntryModel>::empty());
            }
        }
        MenuNode::Group { id, label, entries }
    }

    /// Build a complete new menu tree for `sessions`, unconditionally:
    /// header, one group per session (or the placeholder), quit. Every
    /// entity gets a fresh identifier.
    pub fn build_menu(&mut self, sessions: &Vec<SessionInfo>, providers: &Vec<ProviderInfo>) -> (t:
        MenuTree)
        requires
            old(self).counter + menu_size(sessions@, flat_models(providers@)) <= u64::MAX,
        ensures
            final(self).counter == old(self).counter + menu_size(
                sessions@,
                flat_models(providers@),
            ),
            final(self).last_fingerprint == old(self).last_fingerprint,
            t@ == menu_model(sessions@, flat_models(providers@), old(self).counter as nat),
    {
        let ghost fm = flat_models(providers@);
        let ghost c0 = self.counter as nat;
        let pairs = flatten_catalog(providers);
        let mut nodes: Vec<MenuNode> = Vec::new();
        let hid = self.uid("header");
        nodes.push(
            MenuNode::Entry(
                MenuEntry { id: hid, label: String::from_str("oh-my-proxy"), enabled: false },
            ),
        );
        if sessions.len() == 0 {
            let nid = self.uid("no_sessions");
            nodes.push(
                MenuNode::Entry(
                    MenuEntry {
                        id: nid,
                        label: String::from_str("No sessions running"),
                        enabled: false,
                    },
                ),
            );
            let qid = self.uid("quit");
            nodes.push(
                MenuNode::Entry(
                    MenuEntry { id: qid, label: String::from_str("Quit"), enabled: true },
                ),
            );
            proof {
                assert(nodes@.map_values(|n: MenuNode| n@) =~= menu_model(sessions@, fm, c0));
            }
            MenuTree { nodes }
        } else {
            let mut i: usize = 0;
            while i < sessions.len()
                invariant
                    i <= sessions.len(),
                    fm == flat_models(providers@),
                    fm == pairs@.map_values(|c: CatalogPair| c@),
                    c0 + menu_size(sessions@, fm) <= u64::MAX,
                    sessions@.len() > 0,
                    self.counter as nat == c0 + 1 + groups_size(sessions@.take(i as int), fm),
                    self.last_fingerprint == old(self).last_fingerprint,
                    nodes@.map_values(|n: MenuNode| n@) == seq![
                        MenuNodeModel::Entry(
                            MenuEntryModel {
                                id: uid_spec("header"@, c0),
                                label: "oh-my-proxy"@,
                                enabled: false,
                            },
                        ),
                    ] + groups_model(sessions@.take(i as int), fm, c0 + 1),
                decreases sessions.len() - i,
            {
                proof {
                    lemma_groups_size_monotonic(sessions@, fm, i as int);
                }
                let g = self.build_group(&sessions[i], &pairs);
                let ghost n0 = nodes@.map_values(|n: MenuNode| n@);
                nodes.push(g);
                proof {
                    assert(nodes@.map_values(|n: MenuNode| n@) =~= n0.push(g@));
                    assert(sessions@.take(i + 1).drop_last() =~= sessions@.take(i as int));
                    assert(sessions@.take(i + 1).last() == sessions@[i as int]);
                    assert(nodes@.map_values(|n: MenuNode| n@) =~= seq![
                        MenuNodeModel::Entry(
                            MenuEntryModel {
                                id: uid_spec("header"@, c0),
                                label: "oh-my-proxy"@,
                                enabled: false,
                            },
                        ),
                    ] + groups_model(sessions@.take(i + 1), fm, c0 + 1));
                }
                i += 1;
            }
            proof {
                assert(sessions@.take(sessions@.len() as int) =~= sessions@);
            }
            let qid = self.uid("quit");
            let ghost n0 = nodes@.map_values(|n: MenuNode| n@);
            nodes.push(
                MenuNode::Entry(
                    MenuEntry { id: qid, label: String::from_str("Quit"), enabled: true },
                ),
            );
            proof {
                assert(nodes@.map_values(|n: MenuNode| n@) =~= n0.push(nodes@.last()@));
                assert(nodes@.map_values(|n: MenuNode| n@) =~= menu_model(sessions@, fm, c0));
            }
            MenuTree { nodes }
        }
    }

    /// Build the initial menu shown before any session data exists: header,
    /// placeholder, quit.
    pub fn build_empty_menu(&mut self) -> (t: MenuTree)
        requires
            old(self).counter + 3 <= u64::MAX,
        ensures
            final(self).counter == old(self).counter + 3,
            final(self).last_fingerprint == old(self).last_fingerprint,
            t@ == menu_model(Seq::empty(), Seq::empty(), old(self).counter as nat),
    {
        let sessions: Vec<SessionInfo> = Vec::new();
        let providers: Vec<ProviderInfo> = Vec::new();
        proof {
            assert(flat_models(providers@) =~= Seq::<CatalogPairModel>::empty());
            assert(sessions@ =~= Seq::<SessionInfo>::empty());
        }
        self.build_menu(&sessions, &providers)
    }

    /// One reconciliation pass: rebuild the menu exactly when the sessions'
    /// fingerprint differs from the cached one, and cache the new
    /// fingerprint with the rebuild. A pass that returns nothing leaves the
    /// engine, and so the visible menu, completely untouched.
    pub fn reconcile(&mut self, sessions: &Vec<SessionInfo>, providers: &Vec<ProviderInfo>) -> (r:
        Option<MenuTree>)
        requires
            old(self).counter + menu_size(sessions@, flat_models(providers@)) <= u64::MAX,
        ensures
            (r is None) == (fingerprint_spec(sessions@) == old(self).last_fingerprint@),
            r is None ==> *final(self) == *old(self),
            r matches Option::Some(t) ==> {
                &&& t@ == menu_model(sessions@, flat_models(providers@), old(self).counter as nat)
                &&& final(self).counter == old(self).counter + menu_size(
                    sessions@,
                    flat_models(providers@),
                )
                &&& final(self).last_fingerprint@ == fingerprint_spec(sessions@)
            },
            ({
                let o = reconcile_spec(
                    old(self).last_fingerprint@,
                    old(self).counter as nat,
                    sessions@,
                    flat_models(providers@),
                );
                &&& final(self).last_fingerprint@ == o.fingerprint
                &&& final(self).counter as nat == o.counter
                &&& (r is None) == (o.rebuild is None)
                &&& (r matches Option::Some(t) ==> o.rebuild == Option::Some(t@))
            }),
    {
        let fp = compute_fingerprint(sessions);
        if fp == self.last_fingerprint {
            return Option::None;
        }
        let t = self.build_menu(sessions, providers);
        self.last_fingerprint = fp;
        Option::Some(t)
    }
}

/// A nonempty session list needs at least one identifier per catalog pair.
proof fn lemma_groups_size_at_least_pairs(ss: Seq<SessionInfo>, fm: Seq<CatalogPairModel>)
    requires
        ss.len() > 0,
    ensures
        groups_size(ss, fm) >= 1 + fm.len(),
    decreases ss.len(),
{
    if ss.len() > 1 {
        lemma_groups_size_at_least_pairs(ss.drop_last(), fm);
    }
}

/// How many identifiers a rebuild for `sessions` would take, or nothing
/// where that exceeds what the counter type can count. A caller can test
/// the counter headroom a rebuild needs before asking for one.
pub fn menu_budget(sessions: &Vec<SessionInfo>, providers: &Vec<ProviderInfo>) -> (r: Option<u64>)
    ensures
        r matches Option::Some(v) ==> v as nat == menu_size(sessions@, flat_models(providers@)),
        r is None ==> menu_size(sessions@, flat_models(providers@)) > u64::MAX,
{
    let ghost fm = flat_models(providers@);
    if sessions.len() == 0 {
        return Option::Some(3);
    }
    // count the flattened catalog pairs
    let mut l: u128 = 0;
    let mut i: usize = 0;
    while i < providers.len()
        invariant
            i <= providers.len(),
            fm == flat_models(providers@),
            sessions@.len() > 0,
            l == flat_models(providers@.take(i as int)).len(),
            l <= u64::MAX,
        decreases providers.len() - i,
    {
        proof {
            assert(providers@.take(i + 1).drop_last() =~= providers@.take(i as int));
            assert(providers@.take(i + 1).last() == providers@[i as int]);
        }
        let added: u128 = providers[i].models.len() as u128;
        l = l + added;
        if l > 0xffff_ffff_ffff_ffff {
            proof {
                lemma_flat_models_prefix(providers@, i + 1);
                lemma_groups_size_at_least_pairs(sessions@, fm);
            }
            return Option::None;
        }
        i += 1;
    }
    proof {
        assert(providers@.take(providers@.len() as int) =~= providers@);
    }
    // count the groups
    let mut gs: u128 = 0;
    let mut j: usize = 0;
    while j < sessions.len()
        invariant
            j <= sessions.len(),
            fm == flat_models(providers@),
            sessions@.len() > 0,
            l == fm.len(),
            l <= u64::MAX,
            gs == groups_size(sessions@.take(j as int), fm),
            gs <= u64::MAX,
        decreases sessions.len() - j,
    {
        proof {
            lemma_groups_size_monotonic(sessions@, fm, j as int);
        }
        let extra: u128 = if sessions[j].switched {
            2
        } else {
            1
        };
        gs = gs + l + extra;
        if gs > 0xffff_ffff_ffff_ffff {
            return Option::None;
        }
        j += 1;
    }
    proof {
        assert(sessions@.take(sessions@.len() as int) =~= sessions@);
    }
    let total: u128 = gs + 2;
    if total > 0xffff_ffff_ffff_ffff {
        Option::None
    } else {
        Option::Some(total as u64)
    }
}

/// The flattened catalog only grows with more providers.
proof fn lemma_flat_models_prefix(ps: Seq<ProviderInfo>, i: int)
    requires
        0 <= i <= ps.len(),
    ensures
        flat_models(ps.take(i)).len() <= flat_models(ps).len(),
    decreases ps.len() - i,
{
    if i < ps.len() {
        assert(ps.take(i + 1).drop_last() =~= ps.take(i));
        assert(ps.take(i + 1).last() == ps[i]);
        lemma_flat_models_prefix(ps, i + 1);
    } else {
        assert(ps.take(i) =~= ps);
    }
}

/// The spec-level outcome of one reconciliation pass: the cached
/// fingerprint and counter afterwards, and the rebuilt tree if any.
pub struct ReconcileModel {
    pub fingerprint: Seq<char>,
    pub counter: nat,
    pub rebuild: Option<Seq<MenuNodeModel>>,
}

/// What one reconciliation pass does, as a function of the cached state and
/// the sessions: rebuild exactly when the fingerprint changed.
pub open spec fn reconcile_spec(
    fp: Seq<char>,
    counter: nat,
    ss: Seq<SessionInfo>,
    fm: Seq<CatalogPairModel>,
) -> ReconcileModel {
    if fingerprint_spec(ss) == fp {
        ReconcileModel { fingerprint: fp, counter, rebuild: Option::None }
    } else {
        ReconcileModel {
            fingerprint: fingerprint_spec(ss),
            counter: counter + menu_size(ss, fm),
            rebuild: Option::Some(menu_model(ss, fm, counter)),
        }
    }
}

/// Reconciliation is idempotent: a second pass over the same sessions,
/// from the state the first pass left behind, rebuilds nothing and changes
/// nothing, whether or not the first pass rebuilt.
pub proof fn lemma_reconcile_idempotent(
    fp: Seq<char>,
    counter: nat,
    ss: Seq<SessionInfo>,
    fm: Seq<CatalogPairModel>,
)
    ensures
        ({
            let first = reconcile_spec(fp, counter, ss, fm);
            let second = reconcile_spec(first.fingerprint, first.counter, ss, fm);
            &&& second.rebuild is None
            &&& second.fingerprint == first.fingerprint
            &&& second.counter == first.counter
        }),
{
}

/// The identifiers of a run of entries, in order.
pub open spec fn entry_ids(es: Seq<MenuEntryModel>) -> Seq<Seq<char>> {
    es.map_values(|e: MenuEntryModel| e.id)
}

/// The identifiers one node carries: its own, then its entries' in order.
pub open spec fn node_ids(n: MenuNodeModel) -> Seq<Seq<char>> {
    match n {
        MenuNodeModel::Entry(e) => seq![e.id],
        MenuNodeModel::Group { id, entries, .. } => seq![id] + entry_ids(entries),
    }
}

/// All identifiers of a menu tree, in allocation order.
pub open spec fn tree_ids(ns: Seq<MenuNodeModel>) -> Seq<Seq<char>>
    decreases ns.len(),
{
    if ns.len() == 0 {
        Seq::empty()
    } else {
        tree_ids(ns.drop_last()) + node_ids(ns.last())
    }
}

/// Tree identifiers distribute over concatenation of node runs.
proof fn lemma_tree_ids_concat(a: Seq<MenuNodeModel>, b: Seq<MenuNodeModel>)
    ensures
        tree_ids(a + b) == tree_ids(a) + tree_ids(b),
    decreases b.len(),
{
    if b.len() == 0 {
        assert(a + b =~= a);
        assert(tree_ids(a) + tree_ids(b) =~= tree_ids(a));
    } else {
        lemma_tree_ids_concat(a, b.drop_last());
        assert((a + b).drop_last() =~= a + b.drop_last());
        assert((a + b).last() == b.last());
        assert(tree_ids(a) + tree_ids(b) =~= tree_ids(a) + tree_ids(b.drop_last()) + node_ids(
            b.last(),
        ));
    }
}

/// The switch entries of one group record the counters they were allocated
/// with, in order from `c`.
proof fn lemma_switch_entries_counters(s: SessionInfo, fm: Seq<CatalogPairModel>, c: nat)
    ensures
        switch_entries_model(s, fm, c).len() == fm.len(),
        forall|k: int|
            0 <= k < fm.len() ==> counter_val(#[trigger] switch_entries_model(s, fm, c)[k].id)
                == c + k,
    decreases fm.len(),
{
    if fm.len() > 0 {
        lemma_switch_entries_counters(s, fm.drop_last(), c);
        lemma_uid_counter(switch_action(s, fm.last()), (c + fm.len() - 1) as nat);
        assert forall|k: int| 0 <= k < fm.len() implies counter_val(
            #[trigger] switch_entries_model(s, fm, c)[k].id,
        ) == c + k by {
            if k < fm.len() - 1 {
                assert(switch_entries_model(s, fm, c)[k] == switch_entries_model(
                    s,
                    fm.drop_last(),
                    c,
                )[k]);
            } else {
                assert(switch_entries_model(s, fm, c)[k].id == uid_spec(
                    switch_action(s, fm.last()),
                    (c + fm.len() - 1) as nat,
                ));
            }
        }
    }
}

/// All identifiers of one session's group record the counters they were
/// allocated with, in order from `c`.
proof fn lemma_group_counters(s: SessionInfo, fm: Seq<CatalogPairModel>, c: nat)
    ensures
        node_ids(group_model(s, fm, c)).len() == group_size(s, fm),
        forall|k: int|
            0 <= k < group_size(s, fm) ==> counter_val(
                #[trigger] node_ids(group_model(s, fm, c))[k],
            ) == c + k,
{
    let g = group_model(s, fm, c);
    let sw = switch_entries_model(s, fm, c + 1);
    lemma_uid_counter("session_"@ + s.session_id@, c);
    lemma_switch_entries_counters(s, fm, c + 1);
    if s.switched {
        lemma_uid_counter(revert_action(s), (c + 1 + fm.len()) as nat);
    }
    assert forall|k: int| 0 <= k < group_size(s, fm) implies counter_val(
        #[trigger] node_ids(g)[k],
    ) == c + k by {
        if k == 0 {
            assert(node_ids(g)[0] == uid_spec("session_"@ + s.session_id@, c));
        } else if k < 1 + fm.len() {
            assert(node_ids(g)[k] == entry_ids(g->entries)[k - 1]);
            assert(entry_ids(g->entries)[k - 1] == g->entries[k - 1].id);
            assert(g->entries[k - 1] == sw[k - 1]);
        } else {
            assert(node_ids(g)[k] == g->entries[k - 1].id);
            assert(g->entries[k - 1] == revert_entry_model(s, (c + 1 + fm.len()) as nat));
        }
    }
}

/// All identifiers of the session groups record the counters they were
/// allocated with, in order from `c`.
proof fn lemma_groups_counters(ss: Seq<SessionInfo>, fm: Seq<CatalogPairModel>, c: nat)
    ensures
        tree_ids(groups_model(ss, fm, c)).len() == groups_size(ss, fm),
        forall|k: int|
            0 <= k < groups_size(ss, fm) ==> counter_val(
                #[trigger] tree_ids(groups_model(ss, fm, c))[k],
            ) == c + k,
    decreases ss.len(),
{
    if ss.len() > 0 {
        let prefix = groups_model(ss.drop_last(), fm, c);
        let g = group_model(ss.last(), fm, c + groups_size(ss.drop_last(), fm));
        lemma_groups_counters(ss.drop_last(), fm, c);
        lemma_group_counters(ss.last(), fm, c + groups_size(ss.drop_last(), fm));
        assert((prefix + seq![g]).drop_last() =~= prefix);
        assert((prefix + seq![g]).last() == g);
        assert(tree_ids(groups_model(ss, fm, c)) == tree_ids(prefix) + node_ids(g));
        assert forall|k: int| 0 <= k < groups_size(ss, fm) implies counter_val(
            #[trigger] tree_ids(groups_model(ss, fm, c))[k],
        ) == c + k by {
            if k < groups_size(ss.drop_last(), fm) {
                assert(tree_ids(groups_model(ss, fm, c))[k] == tree_ids(prefix)[k]);
            } else {
                assert(tree_ids(groups_model(ss, fm, c))[k] == node_ids(g)[k - groups_size(
                    ss.drop_last(),
                    fm,
                )]);
            }
        }
    }
}

/// Every identifier of a rebuilt menu records the counter it was allocated
/// with: the `k`-th identifier of a rebuild starting at counter `c` records
/// exactly `c + k`.
pub proof fn lemma_menu_counters(ss: Seq<SessionInfo>, fm: Seq<CatalogPairModel>, c: nat)
    ensures
        tree_ids(menu_model(ss, fm, c)).len() == menu_size(ss, fm),
        forall|k: int|
            0 <= k < menu_size(ss, fm) ==> counter_val(
                #[trigger] tree_ids(menu_model(ss, fm, c))[k],
            ) == c + k,
{
    let header = MenuNodeModel::Entry(
        MenuEntryModel { id: uid_spec("header"@, c), label: "oh-my-proxy"@, enabled: false },
    );
    lemma_uid_counter("header"@, c);
    if ss.len() == 0 {
        lemma_uid_counter("no_sessions"@, c + 1);
        lemma_uid_counter("quit"@, c + 2);
        let ns_node = MenuNodeModel::Entry(
            MenuEntryModel {
                id: uid_spec("no_sessions"@, c + 1),
                label: "No sessions running"@,
                enabled: false,
            },
        );
        let q_node = MenuNodeModel::Entry(
            MenuEntryModel { id: uid_spec("quit"@, c + 2), label: "Quit"@, enabled: true },
        );
        let m = menu_model(ss, fm, c);
        assert(m =~= seq![header, ns_node, q_node]);
        assert(m.drop_last() =~= seq![header, ns_node]);
        assert(seq![header, ns_node].drop_last() =~= seq![header]);
        assert(seq![header].drop_last() =~= Seq::<MenuNodeModel>::empty());
        assert(tree_ids(m) == tree_ids(seq![header, ns_node]) + node_ids(q_node));
        assert(tree_ids(seq![header, ns_node]) == tree_ids(seq![header]) + node_ids(ns_node));
        assert(tree_ids(seq![header]) == tree_ids(Seq::<MenuNodeModel>::empty()) + node_ids(
            header,
        ));
        assert forall|k: int| 0 <= k < menu_size(ss, fm) implies counter_val(
            #[trigger] tree_ids(m)[k],
        ) == c + k by {
            assert(tree_ids(m)[0] == uid_spec("header"@, c));
            assert(tree_ids(m)[1] == uid_spec("no_sessions"@, c + 1));
            assert(tree_ids(m)[2] == uid_spec("quit"@, c + 2));
        }
    } else {
        let quit = MenuNodeModel::Entry(
            MenuEntryModel {
                id: uid_spec("quit"@, c + 1 + groups_size(ss, fm)),
                label: "Quit"@,
                enabled: true,
            },
        );
        lemma_uid_counter("quit"@, c + 1 + groups_size(ss, fm));
        lemma_groups_counters(ss, fm, c + 1);
        lemma_tree_ids_concat(seq![header], groups_model(ss, fm, c + 1));
        lemma_tree_ids_concat(seq![header] + groups_model(ss, fm, c + 1), seq![quit]);
        assert(seq![header].drop_last() =~= Seq::<MenuNodeModel>::empty());
        assert(seq![quit].drop_last() =~= Seq::<MenuNodeModel>::empty());
        let m = menu_model(ss, fm, c);
        assert(tree_ids(m) == tree_ids(seq![header] + groups_model(ss, fm, c + 1)) + tree_ids(
            seq![quit],
        ));
        assert(tree_ids(seq![header]) == tree_ids(Seq::<MenuNodeModel>::empty()) + node_ids(
            header,
        ));
        assert(tree_ids(seq![quit]) == tree_ids(Seq::<MenuNodeModel>::empty()) + node_ids(quit));
        assert(tree_ids(m) =~= seq![uid_spec("header"@, c)] + tree_ids(
            groups_model(ss, fm, c + 1),
        ) + seq![uid_spec("quit"@, c + 1 + groups_size(ss, fm))]);
        assert forall|k: int| 0 <= k < menu_size(ss, fm) implies counter_val(
            #[trigger] tree_ids(m)[k],
        ) == c + k by {
            if k == 0 {
                assert(tree_ids(m)[0] == uid_spec("header"@, c));
            } else if k < 1 + groups_size(ss, fm) {
                assert(tree_ids(m)[k] == tree_ids(groups_model(ss, fm, c + 1))[k - 1]);
            } else {
                assert(tree_ids(m)[k] == uid_spec("quit"@, c + 1 + groups_size(ss, fm)));
            }
        }
    }
}

/// Identifier uniqueness within one rebuild: all identifiers a single menu
/// build allocates are pairwise distinct.
pub proof fn lemma_menu_ids_distinct(ss: Seq<SessionInfo>, fm: Seq<CatalogPairModel>, c: nat)
    ensures
        forall|i: int, j: int|
            0 <= i < j < tree_ids(menu_model(ss, fm, c)).len() ==> #[trigger] tree_ids(
                menu_model(ss, fm, c),
            )[i] != #[trigger] tree_ids(menu_model(ss, fm, c))[j],
{
    lemma_menu_counters(ss, fm, c);
}

/// Identifier uniqueness across rebuilds: a rebuild that starts at or past
/// the counter where an earlier rebuild stopped repeats none of the earlier
/// rebuild's identifiers. Together with the in-rebuild law this makes all
/// identifiers issued over a process's lifetime pairwise distinct.
pub proof fn lemma_rebuild_ids_disjoint(
    ss1: Seq<SessionInfo>,
    fm1: Seq<CatalogPairModel>,
    c1: nat,
    ss2: Seq<SessionInfo>,
    fm2: Seq<CatalogPairModel>,
    c2: nat,
)
    requires
        c1 + menu_size(ss1, fm1) <= c2,
    ensures
        forall|i: int, j: int|
            0 <= i < tree_ids(menu_model(ss1, fm1, c1)).len() && 0 <= j < tree_ids(
                menu_model(ss2, fm2, c2),
            ).len() ==> #[trigger] tree_ids(menu_model(ss1, fm1, c1))[i] != #[trigger] tree_ids(
                menu_model(ss2, fm2, c2),
            )[j],
{
    lemma_menu_counters(ss1, fm1, c1);
    lemma_menu_counters(ss2, fm2, c2);
}

/// Group sizes only grow with more sessions: the prefix of the groups never
/// needs more identifiers than all of them.
proof fn lemma_groups_size_monotonic(ss: Seq<SessionInfo>, fm: Seq<CatalogPairModel>, i: int)
    requires
        0 <= i < ss.len(),
    ensures
        groups_size(ss.take(i), fm) + group_size(ss[i], fm) <= groups_size(ss, fm),
        groups_size(ss.take(i + 1), fm) == groups_size(ss.take(i), fm) + group_size(ss[i], fm),
    decreases ss.len(),
{
    assert(ss.take(i + 1).drop_last() =~= ss.take(i));
    assert(ss.take(i + 1).last() == ss[i]);
    if i + 1 == ss.len() {
        assert(ss.take(i + 1) =~= ss);
    } else {
        lemma_groups_size_monotonic(ss.drop_last(), fm, i);
        assert(ss.drop_last().take(i) =~= ss.take(i));
        assert(ss.drop_last().take(i + 1) =~= ss.take(i + 1));
        assert(ss.drop_last()[i] == ss[i]);
    }
}

} // verus!
