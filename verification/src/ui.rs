use vstd::prelude::*;

verus! {

/// A discrete input the selector reacts to.
#[derive(Clone, Copy, PartialEq, Eq, Structural, Debug)]
pub enum SelectorEvent {
    Down,
    Up,
    Confirm,
    Cancel,
    Tick,
}

/// What one event made of the session: still running, or finished with the
/// confirmed path, or finished with nothing.
#[derive(Clone, Debug)]
pub enum SelectorOutcome {
    Running,
    Confirmed(String),
    Cancelled,
}

/// A pure description of one rendered frame: every item in order under a fixed
/// title, with the highlighted item marked. Producing it never changes the
/// selector; the terminal driver only has to draw it.
pub struct ListView {
    pub title: &'static str,
    pub highlight_marker: &'static str,
    pub entries: Vec<String>,
    pub selected: Option<usize>,
}

/// The interactive selector: a cursor over an immutable snapshot of paths.
pub struct UI {
    items: Vec<String>,
    cursor: Option<usize>,
}

/// Mathematical image of a selector: the item texts and the highlighted index.
pub ghost struct SelectorModel {
    pub items: Seq<Seq<char>>,
    pub cursor: Option<int>,
}

impl View for UI {
    type V = SelectorModel;

    closed spec fn view(&self) -> SelectorModel {
        SelectorModel {
            items: self.items@.map_values(|s: String| s@),
            cursor: match self.cursor {
                Some(i) => Some(i as int),
                None => None,
            },
        }
    }
}

/// The cursor after a down-navigation over `n` items: advance by one, wrapping to
/// the first item from the last; with no items the cursor stays as it is.
pub open spec fn down_step(cursor: Option<int>, n: int) -> Option<int> {
    if n <= 0 {
        cursor
    } else {
        match cursor {
            None => Some(0),
            Some(i) => Some(if i >= n - 1 { 0 } else { i + 1 }),
        }
    }
}

/// The cursor after an up-navigation over `n` items: recede by one, wrapping to
/// the last item from the first; with no items the cursor stays as it is.
pub open spec fn up_step(cursor: Option<int>, n: int) -> Option<int> {
    if n <= 0 {
        cursor
    } else {
        match cursor {
            None => Some(0),
            Some(i) => Some(if i <= 0 { n - 1 } else { i - 1 }),
        }
    }
}

impl UI {
    /// Well-formedness: the cursor is set exactly when there are items, and then
    /// always points at one of them.
    pub open spec fn wf(&self) -> bool {
        &&& self@.cursor is Some <==> self@.items.len() > 0
        &&& match self@.cursor {
            Some(i) => 0 <= i < self@.items.len(),
            None => true,
        }
    }

    /// Creates a selector over a snapshot of `paths`, highlighting the first item
    /// when there is one; over no items the cursor stays unset.
    pub fn new(paths: Vec<&str>) -> (r: Self)
        ensures
            r.wf(),
            r@.items.len() == paths@.len(),
            forall|i: int| 0 <= i < paths@.len() ==> r@.items[i] == paths@[i]@,
            paths@.len() > 0 ==> r@.cursor == Some(0int),
            paths@.len() == 0 ==> r@.cursor is None,
    {
        let mut items: Vec<String> = Vec::new();
        let mut i: usize = 0;
        while i < paths.len()
            invariant
                i <= paths.len(),
                items@.len() == i,
                forall|j: int| 0 <= j < i ==> items@[j]@ == paths@[j]@,
            decreases paths.len() - i,
        {
            items.push(String::from_str(paths[i]));
            i += 1;
        }
        let cursor: Option<usize> = if items.len() > 0 {
            Some(0)
        } else {
            None
        };
        UI { items, cursor }
    }

    /// Moves the highlight one item down, wrapping to the first item from the
    /// last; with no items this is a no-op.
    pub fn next(&mut self)
        requires
            old(self).wf(),
        ensures
            final(self).wf(),
            final(self)@.items == old(self)@.items,
            final(self)@.cursor == down_step(old(self)@.cursor, old(self)@.items.len() as int),
    {
        match self.cursor {
            Some(i) => {
                let n = self.items.len();
                self.cursor = Some(if i >= n - 1 { 0 } else { i + 1 });
            }
            None => {}
        }
    }

    /// Moves the highlight one item up, wrapping to the last item from the
    /// first; with no items this is a no-op.
    pub fn previous(&mut self)
        requires
            old(self).wf(),
        ensures
            final(self).wf(),
            final(self)@.items == old(self)@.items,
            final(self)@.cursor == up_step(old(self)@.cursor, old(self)@.items.len() as int),
    {
        match self.cursor {
            Some(i) => {
                let n = self.items.len();
                self.cursor = Some(if i == 0 { n - 1 } else { i - 1 });
            }
            None => {}
        }
    }

    /// Feeds one event to a running session and reports what became of it:
    /// navigation moves the highlight and keeps the session running, a tick
    /// changes nothing, cancel ends the session with nothing, and confirm ends it
    /// with the highlighted path, or with nothing when no item is highlighted.
    pub fn handle_event(&mut self, event: SelectorEvent) -> (r: SelectorOutcome)
        requires
            old(self).wf(),
        ensures
            final(self).wf(),
            final(self)@.items == old(self)@.items,
            match event {
                SelectorEvent::Down => r is Running && final(self)@.cursor == down_step(
                    old(self)@.cursor,
                    old(self)@.items.len() as int,
                ),
                SelectorEvent::Up => r is Running && final(self)@.cursor == up_step(
                    old(self)@.cursor,
                    old(self)@.items.len() as int,
                ),
                SelectorEvent::Tick => r is Running && final(self)@.cursor == old(self)@.cursor,
                SelectorEvent::Cancel => r is Cancelled && final(self)@.cursor == old(
                    self,
                )@.cursor,
                SelectorEvent::Confirm => final(self)@.cursor == old(self)@.cursor && match old(
                    self,
                )@.cursor {
                    Some(i) => r matches SelectorOutcome::Confirmed(p) && p@ == old(
                        self,
                    )@.items[i],
                    None => r is Cancelled,
                },
            },
    {
        match event {
            SelectorEvent::Down => {
                self.next();
                SelectorOutcome::Running
            }
            SelectorEvent::Up => {
                self.previous();
                SelectorOutcome::Running
            }
            SelectorEvent::Tick => SelectorOutcome::Running,
            SelectorEvent::Cancel => SelectorOutcome::Cancelled,
            SelectorEvent::Confirm => {
                match self.cursor {
                    Some(i) => SelectorOutcome::Confirmed(self.items[i].clone()),
                    None => SelectorOutcome::Cancelled,
                }
            }
        }
    }

    /// Describes the rendered frame for the current state: the items in order,
    /// the cursor's item selected for highlighting, under the selector's title.
    pub fn list_view(&self) -> (r: ListView)
        ensures
            r.title@ == " Select path "@,
            r.highlight_marker@ == ">> "@,
            r.entries@.len() == self@.items.len(),
            forall|i: int| 0 <= i < r.entries@.len() ==> r.entries@[i]@ == self@.items[i],
            r.selected is Some <==> self@.cursor is Some,
            r.selected matches Some(i) ==> self@.cursor == Some(i as int),
    {
        let mut entries: Vec<String> = Vec::new();
        let mut i: usize = 0;
        while i < self.items.len()
            invariant
                i <= self.items.len(),
                entries@.len() == i,
                forall|j: int| 0 <= j < i ==> entries@[j]@ == self@.items[j],
            decreases self.items.len() - i,
        {
            entries.push(self.items[i].clone());
            i += 1;
        }
        ListView { title: " Select path ", highlight_marker: ">> ", entries, selected: self.cursor }
    }
}

/// Wraparound: over at least one item, a down-navigation from the last item
/// moves the cursor to the first, and an up-navigation from the first moves it
/// to the last.
pub proof fn lemma_navigation_wraps(n: int)
    requires
        n > 0,
    ensures
        down_step(Some(n - 1), n) == Some(0int),
        up_step(Some(0int), n) == Some(n - 1),
{
}

/// Inner navigation: away from the ends, a down-navigation advances the cursor
/// by one and an up-navigation recedes it by one.
pub proof fn lemma_navigation_steps(i: int, n: int)
    requires
        0 <= i < n,
    ensures
        i < n - 1 ==> down_step(Some(i), n) == Some(i + 1),
        i > 0 ==> up_step(Some(i), n) == Some(i - 1),
{
}

/// Empty-list safety: a well-formed selector over no items has no cursor, and
/// navigation never gives it one.
pub proof fn lemma_empty_selector(ui: UI)
    requires
        ui.wf(),
        ui@.items.len() == 0,
    ensures
        ui@.cursor is None,
        down_step(ui@.cursor, ui@.items.len() as int) is None,
        up_step(ui@.cursor, ui@.items.len() as int) is None,
{
}

} // verus!
