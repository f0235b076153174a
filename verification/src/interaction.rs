//! The menu interaction state machine: which menu is open, where it is
//! anchored, and what a click on a header, a click on an item or the cancel key
//! does to it.

use vstd::prelude::*;
use crate::menu::{MenuEntry, MenuModel, MenuType};

verus! {

/// Milliseconds added to the time of the opening click to give `opened_at`.
/// A handler that closes menus on outside clicks can then tell the opening
/// click from a later one.
pub const MENU_OPEN_DELAY_MS: u64 = 100;

/// Either no menu is open, or exactly one is, together with the point at which
/// it is drawn and the time from which it counts as open. The anchor and the
/// time exist only while a menu is open.
#[derive(Debug)]
pub enum MenuInteraction<A> {
    Closed,
    Open { menu: MenuType, anchor: A, opened_at: u64 },
}

/// What can happen to the menus.
#[derive(Debug)]
pub enum MenuEvent<A> {
    /// A click on the header of `menu`, whose lower left corner is `anchor`,
    /// at time `now` in milliseconds.
    HeaderClicked { menu: MenuType, anchor: A, now: u64 },
    /// A click on item `index` of the open menu.
    ItemClicked { index: usize },
    /// The cancel key.
    CancelPressed,
}

/// `now` plus the opening delay, held at the largest `u64`.
pub open spec fn open_time(now: u64) -> u64 {
    if now + MENU_OPEN_DELAY_MS <= u64::MAX {
        (now + MENU_OPEN_DELAY_MS) as u64
    } else {
        u64::MAX
    }
}

impl<A> MenuInteraction<A> {
    /// The menu that is open, if any.
    pub open spec fn open_menu(self) -> Option<MenuType> {
        match self {
            MenuInteraction::Closed => None,
            MenuInteraction::Open { menu, .. } => Some(menu),
        }
    }

    /// The state after a click on the header of `menu`: the open menu closes
    /// if it is `menu`; otherwise `menu` opens, whatever was open before.
    pub open spec fn after_header_click(self, menu: MenuType, anchor: A, now: u64) -> Self {
        if self.open_menu() == Some(menu) {
            MenuInteraction::Closed
        } else {
            MenuInteraction::Open { menu, anchor, opened_at: open_time(now) }
        }
    }

    /// The entry of the open menu at `index`, if a menu is open and has one.
    pub open spec fn entry_at(self, model: MenuModel, index: int) -> Option<MenuEntry> {
        match self.open_menu() {
            Some(menu) => if 0 <= index < model.entries(menu).len() {
                Some(model.entries(menu)[index])
            } else {
                None
            },
            None => None,
        }
    }

    /// The action that a click on item `index` of the open menu runs: that of
    /// the entry there, if it is enabled and no separator.
    pub open spec fn action_of_click(self, model: MenuModel, index: int) -> Option<Seq<char>> {
        match self.entry_at(model, index) {
            Some(entry) => if entry.is_interactive() {
                Some(entry.action)
            } else {
                None
            },
            None => None,
        }
    }

    /// The state after a click on item `index` of the open menu: closed if the
    /// click runs an action, unchanged otherwise.
    pub open spec fn after_item_click(self, model: MenuModel, index: int) -> Self {
        if self.action_of_click(model, index) is Some {
            MenuInteraction::Closed
        } else {
            self
        }
    }

    /// The state after an event.
    pub open spec fn after(self, model: MenuModel, event: MenuEvent<A>) -> Self {
        match event {
            MenuEvent::HeaderClicked { menu, anchor, now } => self.after_header_click(
                menu,
                anchor,
                now,
            ),
            MenuEvent::ItemClicked { index } => self.after_item_click(model, index as int),
            MenuEvent::CancelPressed => MenuInteraction::Closed,
        }
    }

    /// The action that an event runs, if it runs one.
    pub open spec fn action_of(self, model: MenuModel, event: MenuEvent<A>) -> Option<Seq<char>> {
        match event {
            MenuEvent::ItemClicked { index } => self.action_of_click(model, index as int),
            _ => None,
        }
    }

    /// The state after a sequence of events, the first of them first.
    pub open spec fn after_all(self, model: MenuModel, events: Seq<MenuEvent<A>>) -> Self
        decreases events.len(),
    {
        if events.len() == 0 {
            self
        } else {
            self.after_all(model, events.drop_last()).after(model, events.last())
        }
    }

    /// No menu open.
    pub fn new() -> (r: Self)
        ensures
            r == MenuInteraction::<A>::Closed,
    {
        MenuInteraction::Closed
    }

    /// The menu that is open, if any.
    pub fn active_menu(&self) -> (r: Option<MenuType>)
        ensures
            r == self.open_menu(),
    {
        match self {
            MenuInteraction::Closed => None,
            MenuInteraction::Open { menu, .. } => Some(*menu),
        }
    }

    /// The point at which the open menu is drawn.
    pub fn anchor(&self) -> (r: Option<&A>)
        ensures
            match *self {
                MenuInteraction::Closed => r is None,
                MenuInteraction::Open { anchor, .. } => r == Some(&anchor),
            },
    {
        match self {
            MenuInteraction::Closed => None,
            MenuInteraction::Open { anchor, .. } => Some(anchor),
        }
    }

    /// The time from which the open menu counts as open.
    pub fn opened_at(&self) -> (r: Option<u64>)
        ensures
            match *self {
                MenuInteraction::Closed => r is None,
                MenuInteraction::Open { opened_at, .. } => r == Some(opened_at),
            },
    {
        match self {
            MenuInteraction::Closed => None,
            MenuInteraction::Open { opened_at, .. } => Some(*opened_at),
        }
    }

    /// A click on the header of `menu`, whose lower left corner is `anchor`,
    /// at time `now` in milliseconds.
    pub fn click_header(&mut self, menu: MenuType, anchor: A, now: u64)
        ensures
            *final(self) == old(self).after_header_click(menu, anchor, now),
    {
        let same = match self.active_menu() {
            Some(open) => open == menu,
            None => false,
        };
        if same {
            *self = MenuInteraction::Closed;
        } else {
            *self = MenuInteraction::Open {
                menu,
                anchor,
                opened_at: now.saturating_add(MENU_OPEN_DELAY_MS),
            };
        }
    }

    /// The cancel key: whatever is open closes.
    pub fn cancel(&mut self)
        ensures
            *final(self) == MenuInteraction::<A>::Closed,
    {
        *self = MenuInteraction::Closed;
    }

    /// A click on item `index` of the open menu. Hands out the action to run
    /// and closes the menu where the item is enabled and no separator. A
    /// click on anything else, or while no menu is open, changes nothing and
    /// runs nothing.
    pub fn click_item(&mut self, model: &MenuModel, index: usize) -> (action: Option<String>)
        ensures
            *final(self) == old(self).after_item_click(*model, index as int),
            match action {
                Some(id) => old(self).action_of_click(*model, index as int) == Some(id@),
                None => old(self).action_of_click(*model, index as int) is None,
            },
    {
        let menu = match self.active_menu() {
            Some(menu) => menu,
            None => {
                return None;
            },
        };
        let items = model.items(menu);
        if index >= items.len() {
            return None;
        }
        let item = &items[index];
        assert(crate::menu::entries_of(items@)[index as int] == item@);
        if item.is_interactive() {
            let id = item.action.clone();
            *self = MenuInteraction::Closed;
            Some(id)
        } else {
            None
        }
    }
}

impl<A> MenuInteraction<A> {
    /// Takes one event: the state moves on, and the action to run, if the
    /// event runs one, comes back.
    pub fn step(&mut self, model: &MenuModel, event: MenuEvent<A>) -> (action: Option<String>)
        ensures
            *final(self) == old(self).after(*model, event),
            match action {
                Some(id) => old(self).action_of(*model, event) == Some(id@),
                None => old(self).action_of(*model, event) is None,
            },
    {
        match event {
            MenuEvent::HeaderClicked { menu, anchor, now } => {
                self.click_header(menu, anchor, now);
                None
            },
            MenuEvent::ItemClicked { index } => self.click_item(model, index),
            MenuEvent::CancelPressed => {
                self.cancel();
                None
            },
        }
    }
}

/// Whatever events came before, a click on a disabled item or on a separator
/// runs no action and leaves the state as it was.
pub proof fn lemma_inert_after_any_events<A>(
    start: MenuInteraction<A>,
    model: MenuModel,
    events: Seq<MenuEvent<A>>,
    index: usize,
)
    requires
        start.after_all(model, events).entry_at(model, index as int) matches Some(entry) && (
        !entry.enabled || entry.is_separator()),
    ensures
        start.after_all(model, events).action_of(model, MenuEvent::ItemClicked { index })
            is None,
        start.after_all(model, events.push(MenuEvent::ItemClicked { index })) == start.after_all(
            model,
            events,
        ),
{
    let longer = events.push(MenuEvent::ItemClicked { index });
    assert(longer.drop_last() =~= events);
}

/// At most one menu is open, and header clicks keep it so: a click on the
/// header of the open menu closes it; a click on any other header opens that
/// menu at once, with the new anchor and time, without a closed state between.
pub proof fn lemma_header_click<A>(state: MenuInteraction<A>, menu: MenuType, anchor: A, now: u64)
    ensures
        state.open_menu() == Some(menu) ==> state.after_header_click(menu, anchor, now)
            == MenuInteraction::<A>::Closed,
        state.open_menu() != Some(menu) ==> state.after_header_click(menu, anchor, now) == (
        MenuInteraction::Open { menu, anchor, opened_at: open_time(now) }),
{
}

/// A click on a disabled item or on a separator runs no action and leaves the
/// state as it is.
pub proof fn lemma_inert_item<A>(state: MenuInteraction<A>, model: MenuModel, index: int)
    requires
        state.entry_at(model, index) matches Some(entry) && (!entry.enabled
            || entry.is_separator()),
    ensures
        state.action_of_click(model, index) is None,
        state.after_item_click(model, index) == state,
{
}

/// An action runs only for an enabled item of the open menu.
pub proof fn lemma_action_needs_enabled_item<A>(
    state: MenuInteraction<A>,
    model: MenuModel,
    index: int,
)
    requires
        state.action_of_click(model, index) is Some,
    ensures
        state.open_menu() is Some,
        state.entry_at(model, index) matches Some(entry) && entry.enabled && !entry.is_separator()
            && state.action_of_click(model, index) == Some(entry.action),
        state.after_item_click(model, index) == MenuInteraction::<A>::Closed,
{
}

} // verus!
