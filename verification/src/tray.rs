//! The menu of the system tray: how its entries are named, how an account
//! is shown in it, and what a chosen entry asks for.

use vstd::prelude::*;
use crate::text::{characters, same_text, texts};

verus! {

/// The positions of a character in a text, in rising order.
pub open spec fn positions_of(text: Seq<char>, c: char) -> Seq<int>
    decreases text.len(),
{
    if text.len() == 0 {
        Seq::empty()
    } else if text.last() == c {
        positions_of(text.drop_last(), c).push(text.len() - 1)
    } else {
        positions_of(text.drop_last(), c)
    }
}

/// An address with most of what stands before the `@` hidden.
///
/// Of a part of one or two characters the first is kept, followed by one
/// star; of a longer part the first and the last are kept, with three stars
/// between them. A text that has not exactly one `@`, or nothing before
/// it, is no address and is left as it is.
pub open spec fn masked(email: Seq<char>) -> Seq<char> {
    let marks = positions_of(email, '@');
    if marks.len() != 1 || marks[0] == 0 {
        email
    } else {
        let local = email.subrange(0, marks[0]);
        let domain = email.subrange(marks[0] + 1, email.len() as int);
        if local.len() <= 2 {
            local.subrange(0, 1) + "*@"@ + domain
        } else {
            local.subrange(0, 1) + "***"@ + local.subrange(local.len() - 1, local.len() as int) + "@"@ + domain
        }
    }
}

/// An address with most of what stands before the `@` hidden.
pub fn mask_email(email: &str) -> (shown: String)
    ensures
        shown@ == masked(email@),
{
    let letters = characters(email);
    let mut count: usize = 0;
    let mut at: usize = 0;
    let mut i: usize = 0;
    assert(letters@.take(0) =~= Seq::<char>::empty());
    while i < letters.len()
        invariant
            i <= letters.len(),
            count == positions_of(letters@.take(i as int), '@').len(),
            count <= i,
            count == 1 ==> at == positions_of(letters@.take(i as int), '@')[0] && at < i,
        decreases letters.len() - i,
    {
        assert(letters@.take(i + 1).drop_last() =~= letters@.take(i as int));
        if letters[i] == '@' {
            if count == 0 {
                at = i;
            }
            count += 1;
        }
        i += 1;
    }
    assert(letters@.take(letters.len() as int) =~= letters@);
    if count != 1 || at == 0 {
        return email.to_owned();
    }
    let length = letters.len();
    let domain = email.substring_char(at + 1, length);
    let mut shown = email.substring_char(0, 1).to_owned();
    assert(email@.subrange(0, at as int).subrange(0, 1) =~= email@.subrange(0, 1));
    if at <= 2 {
        shown.append("*@");
    } else {
        shown.append("***");
        shown.append(email.substring_char(at - 1, at));
        shown.append("@");
        assert(email@.subrange(0, at as int).subrange(at - 1, at as int) =~= email@.subrange(at - 1, at as int));
    }
    shown.append(domain);
    shown
}

/// Whether the application lives on in the system tray when its window is
/// closed, and whether it is on its way there.
#[derive(Debug, Clone, Copy, PartialEq, Eq, Structural)]
pub struct SystemTrayManager {
    is_enabled: bool,
    is_minimizing: bool,
}

/// What is to be done with the window that is to go to the tray.
#[derive(Debug, Clone, Copy, PartialEq, Eq, Structural)]
pub enum Minimize {
    /// Hide the window, and say so when it is done.
    Hide,
    /// Nothing: the window is on its way already.
    Nothing,
}

/// Why the window does not go to the tray.
#[derive(Debug, Clone, Copy, PartialEq, Eq, Structural)]
pub enum TrayError {
    /// The tray is not enabled.
    NotEnabled,
}

impl SystemTrayManager {
    /// The tray of an application that has just started: not enabled.
    pub fn new() -> (manager: SystemTrayManager)
        ensures
            !manager.enabled(),
            !manager.minimizing(),
    {
        SystemTrayManager { is_enabled: false, is_minimizing: false }
    }

    /// Whether the tray is enabled.
    pub closed spec fn enabled(self) -> bool {
        self.is_enabled
    }

    /// Whether the window is on its way to the tray.
    pub closed spec fn minimizing(self) -> bool {
        self.is_minimizing
    }

    /// Enables the tray.
    pub fn enable(&mut self)
        ensures
            final(self).enabled(),
            final(self).minimizing() == old(self).minimizing(),
    {
        self.is_enabled = true;
    }

    /// Disables the tray.
    pub fn disable(&mut self)
        ensures
            !final(self).enabled(),
            final(self).minimizing() == old(self).minimizing(),
    {
        self.is_enabled = false;
    }

    /// Whether the tray is enabled.
    pub fn is_enabled(&self) -> (enabled: bool)
        ensures
            enabled == self.enabled(),
    {
        self.is_enabled
    }

    /// Whether the window is on its way to the tray.
    pub fn is_minimizing(&self) -> (minimizing: bool)
        ensures
            minimizing == self.minimizing(),
    {
        self.is_minimizing
    }

    /// Sends the window to the tray. A window that is on its way is left
    /// alone, whether the tray is enabled or not; else the tray must be
    /// enabled, and the window is then on its way until `minimized` is
    /// called.
    pub fn minimize_to_tray(&mut self) -> (r: Result<Minimize, TrayError>)
        ensures
            final(self).enabled() == old(self).enabled(),
            r == if old(self).minimizing() {
                Ok::<Minimize, TrayError>(Minimize::Nothing)
            } else if !old(self).enabled() {
                Err::<Minimize, TrayError>(TrayError::NotEnabled)
            } else {
                Ok::<Minimize, TrayError>(Minimize::Hide)
            },
            final(self).minimizing() == (old(self).minimizing() || old(self).enabled()),
    {
        if self.is_minimizing {
            return Ok(Minimize::Nothing);
        }
        if !self.is_enabled {
            return Err(TrayError::NotEnabled);
        }
        self.is_minimizing = true;
        Ok(Minimize::Hide)
    }

    /// Takes note that the window was hidden, or could not be hidden: it
    /// is on its way no more.
    pub fn minimized(&mut self)
        ensures
            !final(self).minimizing(),
            final(self).enabled() == old(self).enabled(),
    {
        self.is_minimizing = false;
    }
}

/// The opening of the name of an entry that stands for an account.
pub open spec fn account_prefix() -> Seq<char> {
    "account_"@
}

/// The name of the entry that stands for an account.
pub fn account_entry_id(account: &str) -> (id: String)
    ensures
        id@ == account_prefix() + account@,
{
    let mut id = "account_".to_owned();
    id.append(account);
    id
}

/// One line of the menu.
#[derive(Debug, Clone, PartialEq, Eq)]
pub enum MenuEntry {
    /// An entry that can be chosen, with its name and what it shows.
    Item { id: String, label: String },
    /// A line between entries.
    Separator,
}

/// One line of the menu as a mathematical value.
pub enum MenuEntryView {
    Item { id: Seq<char>, label: Seq<char> },
    Separator,
}

impl View for MenuEntry {
    type V = MenuEntryView;

    open spec fn view(&self) -> MenuEntryView {
        match self {
            MenuEntry::Item { id, label } => MenuEntryView::Item { id: id@, label: label@ },
            MenuEntry::Separator => MenuEntryView::Separator,
        }
    }
}

/// The lines of a menu.
pub open spec fn menu_views(menu: Seq<MenuEntry>) -> Seq<MenuEntryView> {
    menu.map_values(|e: MenuEntry| e@)
}

/// The entry that shows the main window.
pub open spec fn show_entry() -> MenuEntryView {
    MenuEntryView::Item { id: "show_main"@, label: "显示主窗口"@ }
}

/// The entry that leaves the application.
pub open spec fn quit_entry() -> MenuEntryView {
    MenuEntryView::Item { id: "quit"@, label: "退出应用"@ }
}

/// The entries of the accounts, in their order: each is named after its
/// account and shows the account's address with most of it hidden.
pub open spec fn account_entries(accounts: Seq<Seq<char>>) -> Seq<MenuEntryView> {
    accounts.map_values(|account: Seq<char>| MenuEntryView::Item { id: account_prefix() + account, label: masked(account) })
}

/// The menu of the tray: the entry for the main window; the accounts,
/// after a line, where there are any; and, after a line, the entry to
/// leave.
pub open spec fn menu_of(accounts: Seq<Seq<char>>) -> Seq<MenuEntryView> {
    if accounts.len() == 0 {
        seq![show_entry(), MenuEntryView::Separator, quit_entry()]
    } else {
        seq![show_entry(), MenuEntryView::Separator] + account_entries(accounts) + seq![MenuEntryView::Separator, quit_entry()]
    }
}

/// The menu of the tray for the saved accounts.
pub fn tray_menu(accounts: &Vec<String>) -> (menu: Vec<MenuEntry>)
    ensures
        menu_views(menu@) == menu_of(texts(accounts@)),
{
    let ghost names = texts(accounts@);
    let mut menu: Vec<MenuEntry> = Vec::new();
    menu.push(MenuEntry::Item { id: "show_main".to_owned(), label: "显示主窗口".to_owned() });
    menu.push(MenuEntry::Separator);
    assert(menu_views(menu@) =~= seq![show_entry(), MenuEntryView::Separator]);
    if accounts.len() > 0 {
        let mut i: usize = 0;
        assert(account_entries(names.take(0)) =~= Seq::<MenuEntryView>::empty());
        assert(menu_views(menu@) =~= seq![show_entry(), MenuEntryView::Separator] + account_entries(names.take(0)));
        while i < accounts.len()
            invariant
                i <= accounts.len(),
                names == texts(accounts@),
                menu_views(menu@) == seq![show_entry(), MenuEntryView::Separator] + account_entries(names.take(i as int)),
            decreases accounts.len() - i,
        {
            let entry = MenuEntry::Item { id: account_entry_id(accounts[i].as_str()), label: mask_email(accounts[i].as_str()) };
            let ghost before = menu_views(menu@);
            menu.push(entry);
            assert(menu_views(menu@) =~= before.push(entry@));
            assert(account_entries(names.take(i + 1)) =~= account_entries(names.take(i as int)).push(entry@));
            i += 1;
        }
        assert(names.take(accounts.len() as int) =~= names);
        menu.push(MenuEntry::Separator);
    }
    let ghost before = menu_views(menu@);
    let quit = MenuEntry::Item { id: "quit".to_owned(), label: "退出应用".to_owned() };
    menu.push(quit);
    assert(menu_views(menu@) =~= before.push(quit_entry()));
    proof {
        if accounts.len() > 0 {
            let head = seq![show_entry(), MenuEntryView::Separator] + account_entries(names);
            assert(menu_views(menu@) =~= head + seq![MenuEntryView::Separator, quit_entry()]);
        } else {
            assert(names.len() == 0);
        }
    }
    menu
}

/// The menu that the tray has when the application starts: entries to
/// show the window, to hide it, and to leave, with lines between them.
pub open spec fn first_menu() -> Seq<MenuEntryView> {
    seq![
        MenuEntryView::Item { id: "show"@, label: "显示窗口"@ },
        MenuEntryView::Separator,
        MenuEntryView::Item { id: "hide"@, label: "隐藏窗口"@ },
        MenuEntryView::Separator,
        MenuEntryView::Item { id: "quit"@, label: "退出应用"@ },
    ]
}

/// The menu that the tray has when the application starts.
pub fn initial_menu() -> (menu: Vec<MenuEntry>)
    ensures
        menu_views(menu@) == first_menu(),
{
    let mut menu: Vec<MenuEntry> = Vec::new();
    menu.push(MenuEntry::Item { id: "show".to_owned(), label: "显示窗口".to_owned() });
    menu.push(MenuEntry::Separator);
    menu.push(MenuEntry::Item { id: "hide".to_owned(), label: "隐藏窗口".to_owned() });
    menu.push(MenuEntry::Separator);
    menu.push(MenuEntry::Item { id: "quit".to_owned(), label: "退出应用".to_owned() });
    assert(menu_views(menu@) =~= first_menu());
    menu
}

/// What a chosen entry of the menu asks for.
#[derive(Debug, Clone, PartialEq, Eq)]
pub enum MenuAction {
    /// Bring the main window back from wherever it is, and show it.
    ShowMain,
    /// Show the window.
    Show,
    /// Hide the window.
    Hide,
    /// Leave the application.
    Quit,
    /// Switch to the account of this address.
    SwitchAccount(String),
    /// Nothing: the entry is not known.
    Unknown,
}

/// What a chosen entry asks for, as a mathematical value.
pub enum MenuActionView {
    ShowMain,
    Show,
    Hide,
    Quit,
    SwitchAccount(Seq<char>),
    Unknown,
}

impl View for MenuAction {
    type V = MenuActionView;

    open spec fn view(&self) -> MenuActionView {
        match self {
            MenuAction::ShowMain => MenuActionView::ShowMain,
            MenuAction::Show => MenuActionView::Show,
            MenuAction::Hide => MenuActionView::Hide,
            MenuAction::Quit => MenuActionView::Quit,
            MenuAction::SwitchAccount(email) => MenuActionView::SwitchAccount(email@),
            MenuAction::Unknown => MenuActionView::Unknown,
        }
    }
}

/// What the entry of a name asks for.
pub open spec fn action_of(id: Seq<char>) -> MenuActionView {
    if id == "show_main"@ {
        MenuActionView::ShowMain
    } else if id == "quit"@ {
        MenuActionView::Quit
    } else if id.len() >= 8 && id.subrange(0, 8) == account_prefix() {
        MenuActionView::SwitchAccount(id.subrange(8, id.len() as int))
    } else {
        MenuActionView::Unknown
    }
}

/// What the entry of a name asks for.
pub fn menu_action(id: &str) -> (action: MenuAction)
    ensures
        action@ == action_of(id@),
{
    if same_text(id, "show_main") {
        return MenuAction::ShowMain;
    }
    if same_text(id, "quit") {
        return MenuAction::Quit;
    }
    let length = id.unicode_len();
    if length >= 8 && same_text(id.substring_char(0, 8), "account_") {
        MenuAction::SwitchAccount(id.substring_char(8, length).to_owned())
    } else {
        MenuAction::Unknown
    }
}

/// What the entry of a name asks for in the menu that the tray has when
/// the application starts.
pub open spec fn first_action_of(id: Seq<char>) -> MenuActionView {
    if id == "show"@ {
        MenuActionView::Show
    } else if id == "hide"@ {
        MenuActionView::Hide
    } else if id == "quit"@ {
        MenuActionView::Quit
    } else {
        MenuActionView::Unknown
    }
}

/// What the entry of a name asks for in the menu that the tray has when
/// the application starts.
pub fn initial_menu_action(id: &str) -> (action: MenuAction)
    ensures
        action@ == first_action_of(id@),
{
    if same_text(id, "show") {
        MenuAction::Show
    } else if same_text(id, "hide") {
        MenuAction::Hide
    } else if same_text(id, "quit") {
        MenuAction::Quit
    } else {
        MenuAction::Unknown
    }
}

/// The entry that stands for an account asks for the switch to that
/// account.
pub proof fn law_entry_of_account(account: Seq<char>)
    ensures
        action_of(account_prefix() + account) == MenuActionView::SwitchAccount(account),
{
    reveal_strlit("account_");
    reveal_strlit("show_main");
    reveal_strlit("quit");
    let id = account_prefix() + account;
    assert(id[0] == 'a');
    assert(id.subrange(0, 8) =~= account_prefix());
    assert(id.subrange(8, id.len() as int) =~= account);
}

} // verus!
