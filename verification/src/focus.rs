//! Focus management: which of the registered focusable elements has focus,
//! and how focus moves between the active ones.

use vstd::prelude::*;
use vstd::arithmetic::div_mod::{lemma_small_mod, lemma_mod_self_0};

verus! {

/// Focus state for a component.
#[derive(Debug, Clone, Copy, PartialEq, Eq, Structural)]
pub struct FocusState {
    pub is_focused: bool,
}

/// Options for the focus hook.
#[derive(Debug, Clone)]
pub struct UseFocusOptions {
    /// Whether this element should auto-focus on mount
    pub auto_focus: bool,
    /// Whether this element is focusable (default: true)
    pub is_active: bool,
    /// ID for this focusable element (optional, auto-generated if not provided)
    pub id: Option<String>,
}

/// The view of an optional string.
pub open spec fn opt_view(o: Option<String>) -> Option<Seq<char>> {
    match o {
        Some(s) => Some(s@),
        None => None,
    }
}

impl Default for UseFocusOptions {
    /// Not auto-focused, focusable, no id (the same as `new`).
    fn default() -> (r: Self)
        ensures
            r.auto_focus == false,
            r.is_active == true,
            r.id is None,
    {
        UseFocusOptions { auto_focus: false, is_active: true, id: None }
    }
}

impl UseFocusOptions {
    /// Options of an active element, not auto-focused, without an id.
    pub fn new() -> (r: Self)
        ensures
            r.auto_focus == false,
            r.is_active == true,
            r.id is None,
    {
        UseFocusOptions { auto_focus: false, is_active: true, id: None }
    }

    /// Request auto-focus.
    pub fn auto_focus(self) -> (r: Self)
        ensures
            r.auto_focus == true,
            r.is_active == self.is_active,
            opt_view(r.id) == opt_view(self.id),
    {
        UseFocusOptions { auto_focus: true, ..self }
    }

    /// Set whether the element is focusable.
    pub fn is_active(self, active: bool) -> (r: Self)
        ensures
            r.auto_focus == self.auto_focus,
            r.is_active == active,
            opt_view(r.id) == opt_view(self.id),
    {
        UseFocusOptions { is_active: active, ..self }
    }

    /// Set the element's id.
    pub fn id(self, id: &str) -> (r: Self)
        ensures
            r.auto_focus == self.auto_focus,
            r.is_active == self.is_active,
            opt_view(r.id) == Some(id@),
    {
        UseFocusOptions { id: Some(id.to_string()), ..self }
    }
}

/// Whether two string slices hold the same characters.
pub(crate) fn str_eq(a: &str, b: &str) -> (r: bool)
    ensures
        r == (a@ == b@),
{
    crate::text::chars_eq(&crate::text::chars_of(a), &crate::text::chars_of(b))
}

/// A registered focusable element.
#[derive(Debug)]
struct FocusableElement {
    id: usize,
    custom_id: Option<String>,
    is_active: bool,
}

/// What the focus logic sees of a registered element.
pub struct FocusEntry {
    pub id: usize,
    pub custom_id: Option<Seq<char>>,
    pub is_active: bool,
}

/// The first index below `n` at which `p` holds.
pub open spec fn first_where(n: nat, p: spec_fn(int) -> bool) -> Option<nat>
    decreases n,
{
    if n == 0 {
        None
    } else {
        match first_where((n - 1) as nat, p) {
            Some(k) => Some(k),
            None => if p(n - 1) {
                Some((n - 1) as nat)
            } else {
                None
            },
        }
    }
}

/// Once found below `m`, the first index stays the same below any larger bound.
pub proof fn lemma_first_where_stable(m: nat, n: nat, p: spec_fn(int) -> bool)
    requires
        m <= n,
        first_where(m, p) is Some,
    ensures
        first_where(n, p) == first_where(m, p),
    decreases n - m,
{
    if m < n {
        lemma_first_where_stable(m, (n - 1) as nat, p);
    }
}

/// The first index found is one where `p` holds, and `p` fails everywhere
/// before it; without one, `p` fails everywhere below the bound.
pub proof fn lemma_first_where_spec(n: nat, p: spec_fn(int) -> bool)
    ensures
        first_where(n, p) matches Some(k) ==> k < n && p(k as int) && forall|j: int|
            0 <= j < k ==> !#[trigger] p(j),
        first_where(n, p) is None ==> forall|j: int| 0 <= j < n ==> !#[trigger] p(j),
    decreases n,
{
    if n > 0 {
        lemma_first_where_spec((n - 1) as nat, p);
    }
}

/// The indices of the active elements among the first `n`, in order.
pub open spec fn active_upto(es: Seq<FocusEntry>, n: nat) -> Seq<usize>
    decreases n,
{
    if n == 0 {
        Seq::empty()
    } else {
        let prev = active_upto(es, (n - 1) as nat);
        if es[n - 1].is_active {
            prev.push((n - 1) as usize)
        } else {
            prev
        }
    }
}

/// The indices of all active elements, in order.
pub open spec fn active_indices(es: Seq<FocusEntry>) -> Seq<usize> {
    active_upto(es, es.len())
}

/// Holds at the indices where `s` has the value `x`.
pub open spec fn value_at(s: Seq<usize>, x: usize) -> spec_fn(int) -> bool {
    |j: int| s[j] == x
}

/// Holds at the indices of the elements with the given id.
pub open spec fn id_at(es: Seq<FocusEntry>, id: usize) -> spec_fn(int) -> bool {
    |j: int| es[j].id == id
}

/// Holds at the indices of the active elements with the given custom id.
pub open spec fn custom_id_at(es: Seq<FocusEntry>, custom_id: Seq<char>) -> spec_fn(int) -> bool {
    |j: int| es[j].custom_id == Some(custom_id) && es[j].is_active
}

/// The position of `current` among the active indices, or 0 when it is not one.
pub open spec fn active_position(actives: Seq<usize>, current: usize) -> int {
    match first_where(actives.len(), value_at(actives, current)) {
        Some(k) => k as int,
        None => 0,
    }
}

/// The focus after moving to the next active element, wrapping around;
/// from no focus (or one that is not on an active element) the search
/// starts as if the first active element were focused. Unchanged without
/// active elements.
pub open spec fn next_focus(es: Seq<FocusEntry>, focused: Option<usize>) -> Option<usize> {
    let actives = active_indices(es);
    let current = match focused {
        Some(f) => f,
        None => 0,
    };
    if actives.len() == 0 {
        focused
    } else {
        Some(actives[(active_position(actives, current) + 1) % (actives.len() as int)])
    }
}

/// The focus after moving to the previous active element, wrapping around
/// (see `next_focus` for the starting point).
pub open spec fn previous_focus(es: Seq<FocusEntry>, focused: Option<usize>) -> Option<usize> {
    let actives = active_indices(es);
    let current = match focused {
        Some(f) => f,
        None => 0,
    };
    let pos = active_position(actives, current);
    if actives.len() == 0 {
        focused
    } else {
        Some(actives[if pos == 0 { actives.len() - 1 } else { pos - 1 }])
    }
}

/// The active indices among the first `n` elements are increasing, each
/// names an active element below `n`, and every active element below `n`
/// is among them.
pub proof fn lemma_active_upto(es: Seq<FocusEntry>, n: nat)
    requires
        n <= es.len(),
        es.len() <= usize::MAX,
    ensures
        forall|j: int| 0 <= j < active_upto(es, n).len() ==> {
            &&& #[trigger] active_upto(es, n)[j] < n
            &&& es[active_upto(es, n)[j] as int].is_active
        },
        forall|i: int, j: int|
            0 <= i < j < active_upto(es, n).len() ==> #[trigger] active_upto(es, n)[i] < #[trigger] active_upto(es, n)[j],
        forall|k: int| 0 <= k < n && #[trigger] es[k].is_active ==> exists|j: int|
            0 <= j < active_upto(es, n).len() && active_upto(es, n)[j] == k,
    decreases n,
{
    if n > 0 {
        lemma_active_upto(es, (n - 1) as nat);
        let prev = active_upto(es, (n - 1) as nat);
        if es[n - 1].is_active {
            let cur = prev.push((n - 1) as usize);
            assert forall|k: int| 0 <= k < n && #[trigger] es[k].is_active implies exists|j: int|
                0 <= j < cur.len() && cur[j] == k by {
                if k == n - 1 {
                    assert(cur[prev.len() as int] == k);
                } else {
                    let j = choose|j: int| 0 <= j < prev.len() && prev[j] == k;
                    assert(cur[j] == k);
                }
            }
        }
    }
}

/// In an increasing sequence, the position found for the value at `j` is `j`.
pub proof fn lemma_position_of_increasing(s: Seq<usize>, j: int)
    requires
        0 <= j < s.len(),
        forall|a: int, b: int| 0 <= a < b < s.len() ==> #[trigger] s[a] < #[trigger] s[b],
    ensures
        active_position(s, s[j]) == j,
{
    let p = value_at(s, s[j]);
    lemma_first_where_spec(s.len(), p);
    assert(p(j));
    match first_where(s.len(), p) {
        Some(k) => {
            assert(p(k as int));
            if (k as int) < j {
                assert(s[k as int] < s[j]);
            }
        },
        None => {},
    }
}

/// The source of focus ids. A program shares one among all its focus
/// managers, so that an id names one element among them all (until the
/// counter wraps around).
#[derive(Debug)]
pub struct FocusIds {
    next: usize,
}

impl FocusIds {
    /// The id handed out next.
    pub closed spec fn peek(&self) -> usize {
        self.next
    }

    /// A source handing out ids from 0.
    pub fn new() -> (c: Self)
        ensures
            c.peek() == 0,
    {
        FocusIds { next: 0 }
    }

    /// Hands out the next id; the counter wraps around after `usize::MAX`.
    fn take(&mut self) -> (id: usize)
        ensures
            id == old(self).peek(),
            final(self).peek() == (if id == usize::MAX { 0 } else { (id + 1) as usize }),
    {
        let id = self.next;
        self.next = if id == usize::MAX {
            0
        } else {
            id + 1
        };
        id
    }
}

/// Focus manager state: the registered focusable elements and the index of
/// the focused one.
#[derive(Debug)]
pub struct FocusManager {
    elements: Vec<FocusableElement>,
    focused_index: Option<usize>,
}

impl FocusManager {
    /// The registered elements, in registration order.
    pub closed spec fn entries(&self) -> Seq<FocusEntry> {
        self.elements@.map_values(
            |e: FocusableElement|
                FocusEntry { id: e.id, custom_id: opt_view(e.custom_id), is_active: e.is_active },
        )
    }

    /// The index of the focused element, if any.
    pub closed spec fn focused(&self) -> Option<usize> {
        self.focused_index
    }

    /// An empty manager with nothing focused (so no id of it reaches any
    /// counter).
    pub fn new() -> (m: Self)
        ensures
            m.entries() == Seq::<FocusEntry>::empty(),
            m.focused() is None,
            forall|n: usize| #[trigger] ids_below(m.entries(), n),
    {
        let m = FocusManager { elements: Vec::new(), focused_index: None };
        assert(m.entries() =~= Seq::<FocusEntry>::empty());
        m
    }

    /// The number of registered elements.
    pub fn len(&self) -> (r: usize)
        ensures
            r == self.entries().len(),
    {
        self.elements.len()
    }

    /// Register a focusable element and return its id, the next one of
    /// `ids`. While the manager's ids are all below the counter and the
    /// counter has not reached `usize::MAX`, the new id differs from every
    /// registered one and all ids stay below the advanced counter. The new
    /// element takes the focus when it asks for it, is active, and nothing
    /// is focused yet.
    pub fn register(&mut self, ids: &mut FocusIds, custom_id: Option<String>, is_active: bool, auto_focus: bool) -> (id: usize)
        ensures
            id == old(ids).peek(),
            final(ids).peek() == (if id == usize::MAX { 0 } else { (id + 1) as usize }),
            final(self).entries() == old(self).entries().push(
                FocusEntry { id, custom_id: opt_view(custom_id), is_active },
            ),
            final(self).focused() == (if auto_focus && old(self).focused() is None && is_active {
                Some(old(self).entries().len() as usize)
            } else {
                old(self).focused()
            }),
            ids_below(old(self).entries(), old(ids).peek()) && old(ids).peek() < usize::MAX ==> {
                &&& forall|i: int| 0 <= i < old(self).entries().len() ==> #[trigger] old(self).entries()[i].id != id
                &&& ids_below(final(self).entries(), final(ids).peek())
            },
    {
        let id = ids.take();
        let ghost cv = opt_view(custom_id);
        self.elements.push(FocusableElement { id, custom_id, is_active });
        if auto_focus && self.focused_index.is_none() && is_active {
            self.focused_index = Some(self.elements.len() - 1);
        }
        assert(self.entries() =~= old(self).entries().push(
            FocusEntry { id, custom_id: cv, is_active },
        ));
        proof {
            if ids_below(old(self).entries(), old(ids).peek()) && old(ids).peek() < usize::MAX {
                law_registered_ids_are_fresh(
                    old(self).entries(),
                    old(ids).peek(),
                    FocusEntry { id, custom_id: cv, is_active },
                    0,
                    old(ids).peek(),
                );
            }
        }
        id
    }

    /// Index of the first element with the given id.
    fn position_of_id(&self, id: usize) -> (r: Option<usize>)
        ensures
            first_where(self.entries().len(), id_at(self.entries(), id)) == (match r {
                Some(k) => Some(k as nat),
                None => None,
            }),
    {
        let ghost p = id_at(self.entries(), id);
        let mut i: usize = 0;
        while i < self.elements.len()
            invariant
                i <= self.elements@.len(),
                self.entries().len() == self.elements@.len(),
                p == id_at(self.entries(), id),
                first_where(i as nat, p) is None,
            decreases self.elements@.len() - i,
        {
            if self.elements[i].id == id {
                assert(first_where((i + 1) as nat, p) == Some(i as nat));
                proof {
                    lemma_first_where_stable((i + 1) as nat, self.entries().len(), p);
                }
                return Some(i);
            }
            i = i + 1;
        }
        None
    }

    /// Unregister the first element with the given id; the focus follows
    /// its element (and is dropped when its element goes).
    pub fn unregister(&mut self, id: usize)
        ensures
            match first_where(old(self).entries().len(), id_at(old(self).entries(), id)) {
                Some(pos) => {
                    &&& final(self).entries() == old(self).entries().remove(pos as int)
                    &&& final(self).focused() == (match old(self).focused() {
                        Some(f) => if pos == f {
                            None
                        } else if pos < f {
                            Some((f - 1) as usize)
                        } else {
                            Some(f)
                        },
                        None => None,
                    })
                },
                None => final(self).entries() == old(self).entries() && final(self).focused()
                    == old(self).focused(),
            },
            forall|n: usize| #[trigger] ids_below(old(self).entries(), n) ==> ids_below(final(self).entries(), n),
    {
        if let Some(pos) = self.position_of_id(id) {
            proof {
                lemma_first_where_spec(old(self).entries().len(), id_at(old(self).entries(), id));
            }
            self.elements.remove(pos);
            assert(self.entries() =~= old(self).entries().remove(pos as int));
            assert forall|n: usize| #[trigger] ids_below(old(self).entries(), n) implies ids_below(self.entries(), n) by {
                assert forall|i: int| 0 <= i < self.entries().len() implies #[trigger] self.entries()[i].id < n by {
                    if i < pos {
                        assert(self.entries()[i] == old(self).entries()[i]);
                    } else {
                        assert(self.entries()[i] == old(self).entries()[i + 1]);
                    }
                }
            }
            if let Some(focused) = self.focused_index {
                if pos == focused {
                    self.focused_index = None;
                } else if pos < focused {
                    self.focused_index = Some(focused - 1);
                }
            }
        }
    }

    /// Whether the focused element has the given id.
    pub fn is_focused(&self, id: usize) -> (r: bool)
        ensures
            r == (match self.focused() {
                Some(f) => f < self.entries().len() && self.entries()[f as int].id == id,
                None => false,
            }),
    {
        match self.focused_index {
            Some(idx) => {
                if idx < self.elements.len() {
                    self.elements[idx].id == id
                } else {
                    false
                }
            },
            None => false,
        }
    }

    /// The indices of the active elements, in order.
    fn active_elements(&self) -> (v: Vec<usize>)
        ensures
            v@ == active_indices(self.entries()),
    {
        let mut v: Vec<usize> = Vec::new();
        let mut i: usize = 0;
        while i < self.elements.len()
            invariant
                i <= self.elements@.len(),
                self.entries().len() == self.elements@.len(),
                v@ == active_upto(self.entries(), i as nat),
            decreases self.elements@.len() - i,
        {
            if self.elements[i].is_active {
                v.push(i);
            }
            i = i + 1;
        }
        v
    }

    /// Position of `current` in `actives`, or 0.
    fn position_in(actives: &Vec<usize>, current: usize) -> (r: usize)
        ensures
            r == active_position(actives@, current),
            actives@.len() > 0 ==> r < actives@.len(),
    {
        let ghost p = value_at(actives@, current);
        let mut i: usize = 0;
        while i < actives.len()
            invariant
                i <= actives@.len(),
                p == value_at(actives@, current),
                first_where(i as nat, p) is None,
            decreases actives@.len() - i,
        {
            if actives[i] == current {
                assert(first_where((i + 1) as nat, p) == Some(i as nat));
                proof {
                    lemma_first_where_stable((i + 1) as nat, actives@.len(), p);
                }
                return i;
            }
            i = i + 1;
        }
        0
    }

    /// Move the focus to the next active element, wrapping around; from no
    /// focus (or a focus that is not active) the search starts as if the
    /// first active element were focused. No change without active elements.
    pub fn focus_next(&mut self)
        ensures
            final(self).entries() == old(self).entries(),
            final(self).focused() == next_focus(old(self).entries(), old(self).focused()),
    {
        let actives = self.active_elements();
        if actives.len() == 0 {
            return;
        }
        let current = match self.focused_index {
            Some(f) => f,
            None => 0,
        };
        let pos = Self::position_in(&actives, current);
        let next = (pos + 1) % actives.len();
        self.focused_index = Some(actives[next]);
    }

    /// Move the focus to the previous active element, wrapping around; from
    /// no focus (or a focus that is not active) the search starts as if the
    /// first active element were focused. No change without active elements.
    pub fn focus_previous(&mut self)
        ensures
            final(self).entries() == old(self).entries(),
            final(self).focused() == previous_focus(old(self).entries(), old(self).focused()),
    {
        let actives = self.active_elements();
        if actives.len() == 0 {
            return;
        }
        let current = match self.focused_index {
            Some(f) => f,
            None => 0,
        };
        let pos = Self::position_in(&actives, current);
        let prev = if pos == 0 {
            actives.len() - 1
        } else {
            pos - 1
        };
        self.focused_index = Some(actives[prev]);
    }

    /// Focus the first active element whose custom id is `custom_id`; no
    /// change when there is none.
    pub fn focus(&mut self, custom_id: &str)
        ensures
            final(self).entries() == old(self).entries(),
            final(self).focused() == (match first_where(
                old(self).entries().len(),
                custom_id_at(old(self).entries(), custom_id@),
            ) {
                Some(k) => Some(k as usize),
                None => old(self).focused(),
            }),
    {
        let ghost p = custom_id_at(self.entries(), custom_id@);
        let mut i: usize = 0;
        while i < self.elements.len()
            invariant
                i <= self.elements@.len(),
                self.entries().len() == self.elements@.len(),
                self == old(self),
                p == custom_id_at(self.entries(), custom_id@),
                first_where(i as nat, p) is None,
            decreases self.elements@.len() - i,
        {
            let matches: bool = match &self.elements[i].custom_id {
                Some(cid) => str_eq(cid.as_str(), custom_id),
                None => false,
            };
            if matches && self.elements[i].is_active {
                assert(first_where((i + 1) as nat, p) == Some(i as nat));
                proof {
                    lemma_first_where_stable((i + 1) as nat, self.entries().len(), p);
                }
                self.focused_index = Some(i);
                return;
            }
            assert(!p(i as int));
            i = i + 1;
        }
    }

    /// Enable or disable focus for the first element with the given id.
    pub fn enable_focus(&mut self, id: usize, enabled: bool)
        ensures
            final(self).focused() == old(self).focused(),
            match first_where(old(self).entries().len(), id_at(old(self).entries(), id)) {
                Some(pos) => final(self).entries() == old(self).entries().update(
                    pos as int,
                    FocusEntry { is_active: enabled, ..old(self).entries()[pos as int] },
                ),
                None => final(self).entries() == old(self).entries(),
            },
    {
        if let Some(pos) = self.position_of_id(id) {
            proof {
                lemma_first_where_spec(old(self).entries().len(), id_at(old(self).entries(), id));
            }
            let cid: Option<String> = match &self.elements[pos].custom_id {
                Some(c) => Some(c.clone()),
                None => None,
            };
            let eid = self.elements[pos].id;
            self.elements.set(pos, FocusableElement { id: eid, custom_id: cid, is_active: enabled });
            assert(self.entries() =~= old(self).entries().update(
                pos as int,
                FocusEntry { is_active: enabled, ..old(self).entries()[pos as int] },
            ));
        }
    }

    /// Forget the registered elements; the focused index is kept so that
    /// focus persists across renders.
    pub fn clear(&mut self)
        ensures
            final(self).entries() == Seq::<FocusEntry>::empty(),
            forall|n: usize| #[trigger] ids_below(final(self).entries(), n),
            final(self).focused() == old(self).focused(),
    {
        self.elements.clear();
        assert(self.entries() =~= Seq::<FocusEntry>::empty());
    }
}

impl Default for FocusManager {
    fn default() -> (m: Self)
        ensures
            m.entries() == Seq::<FocusEntry>::empty(),
            m.focused() is None,
    {
        Self::new()
    }
}

/// Moving the focus forward or back, with at least one active element,
/// lands on an active element.
pub proof fn law_focus_moves_to_active_element(es: Seq<FocusEntry>, focused: Option<usize>)
    requires
        es.len() <= usize::MAX,
        active_indices(es).len() > 0,
    ensures
        next_focus(es, focused) matches Some(k) && k < es.len() && es[k as int].is_active,
        previous_focus(es, focused) matches Some(k) && k < es.len() && es[k as int].is_active,
{
    let actives = active_indices(es);
    lemma_active_upto(es, es.len());
    let current = match focused {
        Some(f) => f,
        None => 0,
    };
    let pos = active_position(actives, current);
    lemma_first_where_spec(actives.len(), value_at(actives, current));
    let n = (pos + 1) % (actives.len() as int);
    assert(0 <= n < actives.len());
    assert(actives[n] < es.len() && es[actives[n] as int].is_active);
    let m = if pos == 0 { actives.len() - 1 } else { pos - 1 };
    assert(actives[m] < es.len() && es[actives[m] as int].is_active);
}

/// Every registered id is below the id the counter hands out next.
pub open spec fn ids_below(es: Seq<FocusEntry>, next: usize) -> bool {
    forall|i: int| 0 <= i < es.len() ==> #[trigger] es[i].id < next
}

/// Registered ids are fresh until the id counter wraps: while every id of
/// a manager is below the counter and the counter has not reached
/// `usize::MAX`, the id a registration hands out differs from every
/// registered id; the registration (the entry pushed, the counter advanced),
/// an unregistration, and any other manager drawing ids from the same
/// counter (which only moves it up) keep every id below the counter.
pub proof fn law_registered_ids_are_fresh(es: Seq<FocusEntry>, next: usize, e: FocusEntry, pos: int, later: usize)
    requires
        ids_below(es, next),
        next < usize::MAX,
        e.id == next,
    ensures
        forall|i: int| 0 <= i < es.len() ==> #[trigger] es[i].id != e.id,
        ids_below(es.push(e), (next + 1) as usize),
        0 <= pos < es.len() ==> ids_below(es.remove(pos), next),
        next <= later ==> ids_below(es, later),
{
    assert forall|i: int| 0 <= i < es.push(e).len() implies #[trigger] es.push(e)[i].id < next + 1 by {
        if i < es.len() {
            assert(es.push(e)[i] == es[i]);
        }
    }
    if 0 <= pos < es.len() {
        assert forall|i: int| 0 <= i < es.remove(pos).len() implies #[trigger] es.remove(pos)[i].id < next by {
            if i < pos {
                assert(es.remove(pos)[i] == es[i]);
            } else {
                assert(es.remove(pos)[i] == es[i + 1]);
            }
        }
    }
}

/// From a focus on an active element, moving forward and then back (or
/// back and then forward) returns the focus to that element.
pub proof fn law_focus_next_then_previous(es: Seq<FocusEntry>, k: usize)
    requires
        es.len() <= usize::MAX,
        k < es.len(),
        es[k as int].is_active,
    ensures
        previous_focus(es, next_focus(es, Some(k))) == Some(k),
        next_focus(es, previous_focus(es, Some(k))) == Some(k),
{
    let actives = active_indices(es);
    lemma_active_upto(es, es.len());
    assert(es[k as int].is_active);
    let j = choose|j: int| 0 <= j < actives.len() && actives[j] == k;
    lemma_position_of_increasing(actives, j);
    let len = actives.len() as int;
    let nx = (j + 1) % len;
    if j + 1 < len {
        lemma_small_mod((j + 1) as nat, len as nat);
    } else {
        lemma_mod_self_0(len);
    }
    lemma_position_of_increasing(actives, nx);
    let pv = if j == 0 { len - 1 } else { j - 1 };
    lemma_position_of_increasing(actives, pv);
    if j == 0 {
        lemma_mod_self_0(len);
    } else {
        lemma_small_mod(j as nat, len as nat);
    }
    assert((pv + 1) % len == j);
}

} // verus!
