//! The remote entity mapper.
//!
//! A window-listing reply carries one tab-separated record per payload line:
//! session name, window identifier, width, height.  The mapper reconciles
//! such a listing against the locally known proxy surfaces: a listed window
//! not yet mirrored gets a fresh proxy, a window listed again keeps the proxy
//! it already has, and a proxy whose window is absent from the listing is
//! torn down.  Equality is keyed strictly by the remote window identifier;
//! the order of records carries no lifecycle meaning.

use vstd::prelude::*;
use vstd::string::StrSliceExecFns;
use vstd::string::StringExecFns;

use crate::ids::IdAllocator;
use crate::ids::TabId;
use crate::protocol::ReplyBlock;
use crate::text::first_at;
use crate::text::lemma_first_at_bounds;
use crate::text::parse_u64;
use crate::text::parse_u64_spec;

verus! {

/// One remote window as a listing reply describes it.
pub struct RemoteWindowDescriptor {
    /// The remote session the window belongs to.
    pub session_name: String,
    /// The remote window identifier; the key for all change detection.
    pub window_id: String,
    /// The window's width.
    pub width: u64,
    /// The window's height.
    pub height: u64,
}

/// The mathematical content of a window descriptor.
#[verifier::ext_equal]
pub struct WindowModel {
    pub session_name: Seq<char>,
    pub window_id: Seq<char>,
    pub width: u64,
    pub height: u64,
}

impl View for RemoteWindowDescriptor {
    type V = WindowModel;

    open spec fn view(&self) -> WindowModel {
        WindowModel {
            session_name: self.session_name@,
            window_id: self.window_id@,
            width: self.width,
            height: self.height,
        }
    }
}

impl DeepView for RemoteWindowDescriptor {
    type V = WindowModel;

    open spec fn deep_view(&self) -> WindowModel {
        self.view()
    }
}

/// The descriptor a tab-separated record denotes: exactly four fields, the
/// last two decimal, or nothing.
pub open spec fn parse_window_line_spec(s: Seq<char>) -> Option<WindowModel> {
    let t1 = first_at(s, '\t', 0);
    let t2 = first_at(s, '\t', t1 + 1);
    let t3 = first_at(s, '\t', t2 + 1);
    if t3 == s.len() || first_at(s, '\t', t3 + 1) != s.len() {
        None
    } else {
        match (parse_u64_spec(s.subrange(t2 + 1, t3)), parse_u64_spec(
            s.subrange(t3 + 1, s.len() as int),
        )) {
            (Some(w), Some(h)) => Some(
                WindowModel {
                    session_name: s.subrange(0, t1),
                    window_id: s.subrange(t1 + 1, t2),
                    width: w,
                    height: h,
                },
            ),
            _ => None,
        }
    }
}

/// The mathematical content of an optional descriptor.
pub open spec fn opt_window_model(r: Option<RemoteWindowDescriptor>) -> Option<WindowModel> {
    match r {
        Some(d) => Some(d@),
        None => None,
    }
}

/// Parse one payload line of a window-listing reply.
pub fn parse_window_line(line: &str) -> (r: Option<RemoteWindowDescriptor>)
    ensures
        opt_window_model(r) == parse_window_line_spec(line@),
{
    let len = line.unicode_len();
    proof {
        lemma_first_at_bounds(line@, '\t', 0);
    }
    let t1 = crate::text::find_char(line, '\t', 0);
    if t1 == len {
        return None;
    }
    proof {
        lemma_first_at_bounds(line@, '\t', t1 as int + 1);
    }
    let t2 = crate::text::find_char(line, '\t', t1 + 1);
    if t2 == len {
        return None;
    }
    proof {
        lemma_first_at_bounds(line@, '\t', t2 as int + 1);
    }
    let t3 = crate::text::find_char(line, '\t', t2 + 1);
    if t3 == len {
        return None;
    }
    proof {
        lemma_first_at_bounds(line@, '\t', t3 as int + 1);
    }
    let t4 = crate::text::find_char(line, '\t', t3 + 1);
    if t4 != len {
        return None;
    }
    let width = match parse_u64(line, t2 + 1, t3) {
        Some(w) => w,
        None => {
            return None;
        },
    };
    let height = match parse_u64(line, t3 + 1, len) {
        Some(h) => h,
        None => {
            return None;
        },
    };
    let session_name = String::from_str(line.substring_char(0, t1));
    let window_id = String::from_str(line.substring_char(t1 + 1, t2));
    Some(RemoteWindowDescriptor { session_name, window_id, width, height })
}

/// The descriptors a listing's payload denotes, provided every line is a
/// well-formed record.
pub open spec fn parse_listing_spec(lines: Seq<Seq<char>>) -> Option<Seq<WindowModel>> {
    if forall|i: int| 0 <= i < lines.len() ==> parse_window_line_spec(#[trigger] lines[i]) is Some {
        Some(lines.map_values(|l: Seq<char>| parse_window_line_spec(l)->Some_0))
    } else {
        None
    }
}

/// Read a completed reply block as a window listing.
///
/// Succeeds exactly when every payload line is a well-formed record; an empty
/// payload is an empty listing.
pub fn parse_listing(block: &ReplyBlock) -> (r: Option<Vec<RemoteWindowDescriptor>>)
    ensures
        match r {
            Some(v) => parse_listing_spec(block.payload.deep_view()) == Some(v.deep_view()),
            None => parse_listing_spec(block.payload.deep_view()) is None,
        },
{
    let ghost lines = block.payload.deep_view();
    let mut out: Vec<RemoteWindowDescriptor> = Vec::new();
    let mut i: usize = 0;
    while i < block.payload.len()
        invariant
            lines == block.payload.deep_view(),
            i <= lines.len(),
            forall|j: int| 0 <= j < i ==> parse_window_line_spec(#[trigger] lines[j]) is Some,
            out.deep_view() == lines.subrange(0, i as int).map_values(
                |l: Seq<char>| parse_window_line_spec(l)->Some_0,
            ),
        decreases lines.len() - i,
    {
        match parse_window_line(block.payload[i].as_str()) {
            Some(d) => {
                let ghost out0 = out.deep_view();
                out.push(d);
                proof {
                    assert(out.deep_view() =~= out0.push(d@));
                    assert(lines.subrange(0, i + 1).map_values(
                        |l: Seq<char>| parse_window_line_spec(l)->Some_0,
                    ) =~= lines.subrange(0, i as int).map_values(
                        |l: Seq<char>| parse_window_line_spec(l)->Some_0,
                    ).push(d@));
                }
            },
            None => {
                proof {
                    assert(parse_window_line_spec(lines[i as int]) is None);
                    assert(!(forall|j: int|
                        0 <= j < lines.len() ==> parse_window_line_spec(
                            #[trigger] lines[j],
                        ) is Some));
                }
                return None;
            },
        }
        i = i + 1;
    }
    proof {
        assert(lines.subrange(0, lines.len() as int) =~= lines);
    }
    Some(out)
}

/// A local proxy surface mirroring one remote window.
pub struct TabProxy {
    /// The remote window the proxy mirrors.
    pub window_id: String,
    /// The local channel identity under which the proxy is registered.
    pub tab: TabId,
}

/// The mathematical content of a proxy.
#[verifier::ext_equal]
pub struct ProxyModel {
    pub window_id: Seq<char>,
    pub tab: TabId,
}

impl View for TabProxy {
    type V = ProxyModel;

    open spec fn view(&self) -> ProxyModel {
        ProxyModel { window_id: self.window_id@, tab: self.tab }
    }
}

impl DeepView for TabProxy {
    type V = ProxyModel;

    open spec fn deep_view(&self) -> ProxyModel {
        self.view()
    }
}

/// Whether some listed window bears the identifier `id`.
pub open spec fn listing_has(l: Seq<WindowModel>, id: Seq<char>) -> bool {
    exists|i: int| 0 <= i < l.len() && l[i].window_id == id
}

/// Whether some proxy mirrors the window identifier `id`.
pub open spec fn proxies_have(p: Seq<ProxyModel>, id: Seq<char>) -> bool {
    exists|i: int| 0 <= i < p.len() && p[i].window_id == id
}

/// Whether the proxies mirror pairwise distinct windows.
pub open spec fn distinct_windows(p: Seq<ProxyModel>) -> bool {
    forall|i: int, j: int|
        0 <= i < j < p.len() ==> p[i].window_id != p[j].window_id
}

/// Whether `x` is one of the first `upto` proxies of `src`, mirroring a
/// window that the listing `l` names exactly when `listed` says so.
spec fn sourced_entry(
    x: ProxyModel,
    src: Seq<ProxyModel>,
    upto: int,
    l: Seq<WindowModel>,
    listed: bool,
) -> bool {
    exists|j: int|
        0 <= j < upto && x == #[trigger] src[j] && listing_has(l, src[j].window_id) == listed
}

/// Every entry of `pile` is one of the first `upto` proxies of `src`, and
/// its window is listed in `l` exactly when `listed` says so.
spec fn pile_from(
    pile: Seq<ProxyModel>,
    src: Seq<ProxyModel>,
    upto: int,
    l: Seq<WindowModel>,
    listed: bool,
) -> bool {
    forall|k: int|
        0 <= k < pile.len() ==> sourced_entry(#[trigger] pile[k], src, upto, l, listed)
}

/// A pile drawn from the first `upto` proxies is also drawn from any longer
/// prefix.
proof fn lemma_pile_from_widen(
    pile: Seq<ProxyModel>,
    src: Seq<ProxyModel>,
    upto: int,
    wider: int,
    l: Seq<WindowModel>,
    listed: bool,
)
    requires
        pile_from(pile, src, upto, l, listed),
        upto <= wider,
    ensures
        pile_from(pile, src, wider, l, listed),
{
    assert forall|k: int| 0 <= k < pile.len() implies sourced_entry(
        #[trigger] pile[k],
        src,
        wider,
        l,
        listed,
    ) by {
        assert(sourced_entry(pile[k], src, upto, l, listed));
        let j = choose|j: int|
            0 <= j < upto && pile[k] == #[trigger] src[j] && listing_has(l, src[j].window_id)
                == listed;
        assert(0 <= j < wider && pile[k] == src[j] && listing_has(l, src[j].window_id) == listed);
    }
}

/// Reconciles window listings against the locally known proxies.
pub struct EntityMapper {
    /// The live proxies, one per mirrored remote window.
    pub proxies: Vec<TabProxy>,
}

impl EntityMapper {
    /// The mapper's invariant: one proxy per remote window.
    pub open spec fn wf(&self) -> bool {
        distinct_windows(self.proxies.deep_view())
    }

    /// A mapper with no proxies.
    pub fn new() -> (r: Self)
        ensures
            r.wf(),
            r.proxies.deep_view() == Seq::<ProxyModel>::empty(),
    {
        let r = EntityMapper { proxies: Vec::new() };
        proof {
            assert(r.proxies.deep_view() =~= Seq::<ProxyModel>::empty());
        }
        r
    }

    /// Reconcile the proxies against one completed listing.
    ///
    /// Afterwards the proxies mirror exactly the listed windows: a window
    /// already mirrored keeps its proxy unchanged, a window not yet mirrored
    /// gets a proxy under a fresh identity from `ids`, and the proxies of
    /// windows absent from the listing are returned for teardown.
    pub fn reconcile(&mut self, listing: &Vec<RemoteWindowDescriptor>, ids: &mut IdAllocator) -> (removed: Vec<
        TabProxy,
    >)
        requires
            old(self).wf(),
            old(ids).next + listing@.len() <= usize::MAX,
        ensures
            final(self).wf(),
            // The proxies mirror exactly the listed windows.
            forall|id: Seq<char>|
                proxies_have(final(self).proxies.deep_view(), id) == listing_has(
                    listing.deep_view(),
                    id,
                ),
            // A window already mirrored keeps its proxy, identity included.
            forall|j: int|
                0 <= j < old(self).proxies.deep_view().len() && listing_has(
                    listing.deep_view(),
                    old(self).proxies.deep_view()[j].window_id,
                ) ==> final(self).proxies.deep_view().contains(old(self).proxies.deep_view()[j]),
            // A proxy created now bears a fresh identity.
            forall|k: int|
                0 <= k < final(self).proxies.deep_view().len() ==> old(
                    self,
                ).proxies.deep_view().contains(#[trigger] final(self).proxies.deep_view()[k]) || (
                final(self).proxies.deep_view()[k].tab >= old(ids).next
                    && final(self).proxies.deep_view()[k].tab < final(ids).next),
            // Exactly the proxies of unlisted windows are handed back for
            // teardown.
            forall|j: int|
                0 <= j < old(self).proxies.deep_view().len() && !listing_has(
                    listing.deep_view(),
                    old(self).proxies.deep_view()[j].window_id,
                ) ==> removed.deep_view().contains(old(self).proxies.deep_view()[j]),
            forall|k: int|
                0 <= k < removed.deep_view().len() ==> old(self).proxies.deep_view().contains(
                    #[trigger] removed.deep_view()[k],
                ) && !listing_has(listing.deep_view(), removed.deep_view()[k].window_id),
            old(ids).next <= final(ids).next <= old(ids).next + listing@.len(),
    {
        let ghost old_proxies = self.proxies.deep_view();
        let ghost wanted = listing.deep_view();
        let ghost next0 = ids.next;
        let mut kept: Vec<TabProxy> = Vec::new();
        let mut removed: Vec<TabProxy> = Vec::new();
        let n = self.proxies.len();
        let mut i: usize = 0;
        while i < n
            invariant
                n == self.proxies.len(),
                old_proxies == self.proxies.deep_view(),
                wanted == listing.deep_view(),
                distinct_windows(old_proxies),
                i <= n,
                // Every scanned proxy landed in exactly the right pile.
                forall|j: int|
                    0 <= j < i && listing_has(wanted, old_proxies[j].window_id)
                        ==> kept.deep_view().contains(old_proxies[j]),
                forall|j: int|
                    0 <= j < i && !listing_has(wanted, old_proxies[j].window_id)
                        ==> removed.deep_view().contains(old_proxies[j]),
                // Each pile holds only scanned proxies of the matching kind.
                pile_from(kept.deep_view(), old_proxies, i as int, wanted, true),
                pile_from(removed.deep_view(), old_proxies, i as int, wanted, false),
                distinct_windows(kept.deep_view()),
            decreases n - i,
        {
            let p = &self.proxies[i];
            let here = TabProxy { window_id: p.window_id.clone(), tab: p.tab };
            proof {
                assert(here@ == old_proxies[i as int]);
            }
            if listing_has_exec(listing, &here.window_id) {
                let ghost kept0 = kept.deep_view();
                proof {
                    // The scanned proxies are pairwise distinct, so the new
                    // one collides with nothing already kept.
                    assert forall|k: int| 0 <= k < kept0.len() implies kept0[k].window_id
                        != old_proxies[i as int].window_id by {
                        let j = choose|j: int|
                            0 <= j < i && kept0[k] == #[trigger] old_proxies[j] && listing_has(
                                wanted,
                                old_proxies[j].window_id,
                            ) == true;
                        assert(old_proxies[j].window_id != old_proxies[i as int].window_id);
                    }
                }
                kept.push(here);
                proof {
                    assert(kept.deep_view() =~= kept0.push(old_proxies[i as int]));
                    assert forall|j: int|
                        0 <= j < i + 1 && listing_has(
                            wanted,
                            old_proxies[j].window_id,
                        ) implies kept.deep_view().contains(old_proxies[j]) by {
                        if j < i {
                            let k = choose|k: int|
                                0 <= k < kept0.len() && kept0[k] == old_proxies[j];
                            assert(kept.deep_view()[k] == old_proxies[j]);
                        } else {
                            assert(kept.deep_view()[kept0.len() as int] == old_proxies[i as int]);
                        }
                    }
                    assert(pile_from(kept.deep_view(), old_proxies, i + 1, wanted, true)) by {
                        assert forall|k: int| #![trigger kept.deep_view()[k]]
                            0 <= k < kept.deep_view().len() implies exists|j: int|
                            0 <= j < i + 1 && #[trigger] kept.deep_view()[k] == old_proxies[j]
                                && listing_has(wanted, old_proxies[j].window_id) == true by {
                            if k < kept0.len() {
                                assert(kept.deep_view()[k] == kept0[k]);
                                let j = choose|j: int|
                                    0 <= j < i && kept0[k] == #[trigger] old_proxies[j]
                                        && listing_has(wanted, old_proxies[j].window_id) == true;
                                assert(0 <= j < i + 1 && kept.deep_view()[k] == old_proxies[j]
                                    && listing_has(wanted, old_proxies[j].window_id) == true);
                            } else {
                                assert(kept.deep_view()[k] == old_proxies[i as int]);
                                assert(0 <= i < i + 1 && kept.deep_view()[k] == old_proxies[i as int]
                                    && listing_has(wanted, old_proxies[i as int].window_id)
                                    == true);
                            }
                        }
                    }
                    assert(pile_from(removed.deep_view(), old_proxies, i + 1, wanted, false)) by {
                        lemma_pile_from_widen(removed.deep_view(), old_proxies, i as int, i + 1, wanted, false);
                    }
                }
            } else {
                let ghost removed0 = removed.deep_view();
                removed.push(here);
                proof {
                    assert(removed.deep_view() =~= removed0.push(old_proxies[i as int]));
                    assert forall|j: int|
                        0 <= j < i + 1 && !listing_has(
                            wanted,
                            old_proxies[j].window_id,
                        ) implies removed.deep_view().contains(old_proxies[j]) by {
                        if j < i {
                            let k = choose|k: int|
                                0 <= k < removed0.len() && removed0[k] == old_proxies[j];
                            assert(removed.deep_view()[k] == old_proxies[j]);
                        } else {
                            assert(removed.deep_view()[removed0.len() as int] == old_proxies[i as int]);
                        }
                    }
                    assert(pile_from(removed.deep_view(), old_proxies, i + 1, wanted, false)) by {
                        assert forall|k: int| #![trigger removed.deep_view()[k]]
                            0 <= k < removed.deep_view().len() implies exists|j: int|
                            0 <= j < i + 1 && #[trigger] removed.deep_view()[k] == old_proxies[j]
                                && listing_has(wanted, old_proxies[j].window_id) == false by {
                            if k < removed0.len() {
                                assert(removed.deep_view()[k] == removed0[k]);
                                let j = choose|j: int|
                                    0 <= j < i && removed0[k] == #[trigger] old_proxies[j]
                                        && listing_has(wanted, old_proxies[j].window_id) == false;
                                assert(0 <= j < i + 1 && removed.deep_view()[k] == old_proxies[j]
                                    && listing_has(wanted, old_proxies[j].window_id) == false);
                            } else {
                                assert(removed.deep_view()[k] == old_proxies[i as int]);
                                assert(0 <= i < i + 1 && removed.deep_view()[k] == old_proxies[i as int]
                                    && listing_has(wanted, old_proxies[i as int].window_id)
                                    == false);
                            }
                        }
                    }
                    assert(pile_from(kept.deep_view(), old_proxies, i + 1, wanted, true)) by {
                        lemma_pile_from_widen(kept.deep_view(), old_proxies, i as int, i + 1, wanted, true);
                    }
                }
            }
            i = i + 1;
        }
        let ghost kept_mid = kept.deep_view();
        let ghost torn = removed.deep_view();
        proof {
            assert(pile_from(kept_mid, old_proxies, n as int, wanted, true));
            assert(pile_from(torn, old_proxies, n as int, wanted, false));
        }
        let m = listing.len();
        let mut t: usize = 0;
        while t < m
            invariant
                m == listing@.len(),
                wanted == listing.deep_view(),
                t <= m,
                kept_mid.len() <= kept.deep_view().len(),
                next0 <= ids.next <= next0 + t,
                ids.next + (m - t) <= usize::MAX,
                // What was kept stays, in place.
                forall|k: int| 0 <= k < kept_mid.len() ==> kept.deep_view()[k] == kept_mid[k],
                // Beyond it stand only proxies created now, each for a listed
                // window and under a fresh identity.
                forall|k: int|
                    kept_mid.len() <= k < kept.deep_view().len() ==> (#[trigger] kept.deep_view()[k].tab
                        >= next0 && kept.deep_view()[k].tab < ids.next && listing_has(
                        wanted,
                        kept.deep_view()[k].window_id,
                    )),
                // Every scanned listing entry is mirrored.
                forall|j: int| 0 <= j < t ==> proxies_have(kept.deep_view(), wanted[j].window_id),
                distinct_windows(kept.deep_view()),
            decreases m - t,
        {
            let d = &listing[t];
            let ghost kept0 = kept.deep_view();
            if !proxies_have_exec(&kept, &d.window_id) {
                let tab = ids.allocate();
                kept.push(TabProxy { window_id: d.window_id.clone(), tab });
                proof {
                    assert(kept.deep_view() =~= kept0.push(
                        ProxyModel { window_id: wanted[t as int].window_id, tab },
                    ));
                    assert(kept.deep_view()[kept0.len() as int].window_id == wanted[t as int].window_id);
                    assert forall|a: int, b: int|
                        0 <= a < b < kept.deep_view().len() implies kept.deep_view()[a].window_id
                        != kept.deep_view()[b].window_id by {
                        if b < kept0.len() {
                        } else {
                            assert(kept.deep_view()[a] == kept0[a]);
                            assert(kept0[a].window_id != wanted[t as int].window_id);
                        }
                    }
                }
            }
            proof {
                assert forall|j: int| 0 <= j < t + 1 implies proxies_have(
                    kept.deep_view(),
                    wanted[j].window_id,
                ) by {
                    if j < t {
                        let k = choose|k: int|
                            0 <= k < kept0.len() && #[trigger] kept0[k].window_id == wanted[j].window_id;
                        assert(kept.deep_view()[k].window_id == wanted[j].window_id);
                    } else {
                        assert(proxies_have(kept.deep_view(), wanted[t as int].window_id));
                    }
                }
            }
            t = t + 1;
        }
        let ghost fin = kept.deep_view();
        proof {
            // Everything mirrored is either a kept original, whose window the
            // listing names, or was created for a listed window; and each
            // listed window is mirrored by the second pass.
            assert forall|id: Seq<char>|
                proxies_have(fin, id) == listing_has(wanted, id) by {
                if proxies_have(fin, id) {
                    let k = choose|k: int| 0 <= k < fin.len() && #[trigger] fin[k].window_id == id;
                    if k < kept_mid.len() {
                        assert(kept_mid[k] == fin[k]);
                        let j = choose|j: int|
                            0 <= j < n && kept_mid[k] == #[trigger] old_proxies[j] && listing_has(
                                wanted,
                                old_proxies[j].window_id,
                            ) == true;
                        assert(listing_has(wanted, id));
                    } else {
                        assert(fin[k].tab >= next0);
                        assert(listing_has(wanted, fin[k].window_id));
                    }
                }
                if listing_has(wanted, id) {
                    let j = choose|j: int| 0 <= j < wanted.len() && #[trigger] wanted[j].window_id == id;
                    assert(proxies_have(fin, wanted[j].window_id));
                }
            }
            // A kept original stands where the first pass put it.
            assert forall|j: int|
                0 <= j < old_proxies.len() && listing_has(
                    wanted,
                    old_proxies[j].window_id,
                ) implies fin.contains(old_proxies[j]) by {
                let k = choose|k: int| 0 <= k < kept_mid.len() && #[trigger] kept_mid[k] == old_proxies[j];
                assert(fin[k] == old_proxies[j]);
            }
            // Every proxy is a kept original or bears a fresh identity.
            assert forall|k: int| 0 <= k < fin.len() implies old_proxies.contains(
                #[trigger] fin[k],
            ) || (fin[k].tab >= next0 && fin[k].tab < ids.next) by {
                if k < kept_mid.len() {
                    assert(kept_mid[k] == fin[k]);
                    let j = choose|j: int|
                        0 <= j < n && kept_mid[k] == #[trigger] old_proxies[j] && listing_has(
                            wanted,
                            old_proxies[j].window_id,
                        ) == true;
                    assert(old_proxies[j] == fin[k]);
                } else {
                    assert(fin[k].tab >= next0);
                }
            }
            // What was handed back for teardown is exactly the set of
            // unlisted originals.
            assert forall|k: int| 0 <= k < torn.len() implies old_proxies.contains(
                #[trigger] torn[k],
            ) && !listing_has(wanted, torn[k].window_id) by {
                let j = choose|j: int|
                    0 <= j < n && torn[k] == #[trigger] old_proxies[j] && listing_has(
                        wanted,
                        old_proxies[j].window_id,
                    ) == false;
                assert(old_proxies[j] == torn[k]);
            }
        }
        self.proxies = kept;
        removed
    }
}

/// Whether some listed window bears the identifier `id`.
fn listing_has_exec(listing: &Vec<RemoteWindowDescriptor>, id: &String) -> (r: bool)
    ensures
        r == listing_has(listing.deep_view(), id@),
{
    let mut i: usize = 0;
    while i < listing.len()
        invariant
            i <= listing@.len(),
            forall|j: int| 0 <= j < i ==> listing.deep_view()[j].window_id != id@,
        decreases listing@.len() - i,
    {
        if listing[i].window_id == *id {
            proof {
                assert(listing.deep_view()[i as int].window_id == id@);
            }
            return true;
        }
        i = i + 1;
    }
    false
}

/// Whether some proxy mirrors the window identifier `id`.
fn proxies_have_exec(proxies: &Vec<TabProxy>, id: &String) -> (r: bool)
    ensures
        r == proxies_have(proxies.deep_view(), id@),
{
    let mut i: usize = 0;
    while i < proxies.len()
        invariant
            i <= proxies@.len(),
            forall|j: int| 0 <= j < i ==> proxies.deep_view()[j].window_id != id@,
        decreases proxies@.len() - i,
    {
        if proxies[i].window_id == *id {
            proof {
                assert(proxies.deep_view()[i as int].window_id == id@);
            }
            return true;
        }
        i = i + 1;
    }
    false
}

} // verus!
