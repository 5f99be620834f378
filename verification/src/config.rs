//! The decisions of the configuration panel: theme names, menu navigation,
//! account aliases, and the line editor used to type an alias.

use vstd::prelude::*;
use vstd::string::*;
use crate::text::{
    chars_of, is_control, is_control_char, lowercase, owned, push_char, push_str, str_eq, string_of,
    to_lowercase, trim, trim_chars,
};
use crate::theme::Palette;
use crate::types::{LayoutConfig, UserConfig};

verus! {

/// A key read from the terminal.
pub enum MenuKey {
    Up,
    Down,
    Enter,
    Escape,
    Backspace,
    Char(char),
    Other,
}

// ---------------------------------------------------------------------------
// Themes
// ---------------------------------------------------------------------------

/// The theme names that can be stored.
pub open spec fn is_theme_key(k: Seq<char>) -> bool {
    k == "frost"@ || k == "pastel"@ || k == "neon"@
}

/// The key a theme name is stored under: trimmed and lower-cased.
pub open spec fn theme_key(name: Seq<char>) -> Seq<char> {
    lowercase(trim(name))
}

/// Stores a theme in the configuration when its name (trimmed, in any case)
/// is "frost", "pastel" or "neon"; returns whether it did.
pub fn set_config_theme(config: &mut UserConfig, theme_name: &str) -> (ok: bool)
    ensures
        ok == is_theme_key(theme_key(theme_name@)),
        ok ==> final(config).theme@ == theme_key(theme_name@),
        !ok ==> final(config).theme == old(config).theme,
        final(config).layout == old(config).layout,
        final(config).states == old(config).states,
        final(config).colors == old(config).colors,
        final(config).saved_accounts == old(config).saved_accounts,
{
    let trimmed = string_of(&trim_chars(&chars_of(theme_name)));
    let lower = to_lowercase(trimmed.as_str());
    let ok = str_eq(lower.as_str(), "frost") || str_eq(lower.as_str(), "pastel") || str_eq(
        lower.as_str(),
        "neon",
    );
    if ok {
        config.theme = lower;
    }
    ok
}

/// The theme after "frost" in the panel's cycle: frost, pastel, neon.
pub open spec fn next_theme(t: Seq<char>) -> Seq<char> {
    if t == "frost"@ {
        "pastel"@
    } else if t == "pastel"@ {
        "neon"@
    } else {
        "frost"@
    }
}

// ---------------------------------------------------------------------------
// The main menu
// ---------------------------------------------------------------------------

/// The number of entries of the main menu.
pub const MENU_ITEM_COUNT: usize = 8;

/// What the main menu does after a key.
pub enum MenuAction {
    /// Draw the menu again.
    Stay,
    /// Open the account management menu.
    OpenAccounts,
    /// Save the configuration and leave.
    SaveAndExit,
    /// Leave without saving.
    Exit,
}

/// The selection after a key: up and down move it and wrap around.
pub open spec fn menu_selection(selected: nat, key: MenuKey, count: nat) -> nat {
    match key {
        MenuKey::Up => if selected > 0 {
            (selected - 1) as nat
        } else {
            (count - 1) as nat
        },
        MenuKey::Down => if selected < count - 1 {
            selected + 1
        } else {
            0
        },
        _ => selected,
    }
}

/// What the main menu does after a key: Enter on entries 5, 6, 7 opens the
/// accounts, saves and leaves, or leaves; Escape leaves.
pub open spec fn menu_action(selected: nat, key: MenuKey) -> MenuAction {
    match key {
        MenuKey::Enter => if selected == 5 {
            MenuAction::OpenAccounts
        } else if selected == 6 {
            MenuAction::SaveAndExit
        } else if selected == 7 {
            MenuAction::Exit
        } else {
            MenuAction::Stay
        },
        MenuKey::Escape => MenuAction::Exit,
        _ => MenuAction::Stay,
    }
}

/// The layout with switch `i` of the menu turned over: 1 the git part, 2
/// the quota, 3 the context bar, 4 the settings icon; any other entry leaves
/// it as it is.
pub open spec fn toggled(l: LayoutConfig, i: nat) -> LayoutConfig {
    LayoutConfig {
        show_vcs: l.show_vcs != (i == 1),
        show_quota: l.show_quota != (i == 2),
        show_context_bar: l.show_context_bar != (i == 3),
        show_settings: l.show_settings != (i == 4),
        ..l
    }
}

proof fn lemma_toggled_other(l: LayoutConfig, i: nat)
    requires
        i == 0 || i >= 5,
    ensures
        toggled(l, i) == l,
{
}

fn toggled_layout(layout: &LayoutConfig, i: usize) -> (l: LayoutConfig)
    ensures
        l == toggled(*layout, i as nat),
{
    LayoutConfig {
        show_vcs: if i == 1 {
            !layout.show_vcs
        } else {
            layout.show_vcs
        },
        show_quota: if i == 2 {
            !layout.show_quota
        } else {
            layout.show_quota
        },
        show_context_bar: if i == 3 {
            !layout.show_context_bar
        } else {
            layout.show_context_bar
        },
        show_settings: if i == 4 {
            !layout.show_settings
        } else {
            layout.show_settings
        },
        ..*layout
    }
}

fn toggle_switch(config: &mut UserConfig, i: usize)
    ensures
        final(config).layout == toggled(old(config).layout, i as nat),
        final(config).theme == old(config).theme,
        final(config).states == old(config).states,
        final(config).colors == old(config).colors,
        final(config).saved_accounts == old(config).saved_accounts,
{
    let l = toggled_layout(&config.layout, i);
    config.layout = l;
}

fn cycle_theme(config: &mut UserConfig)
    ensures
        final(config).theme@ == next_theme(old(config).theme@),
        final(config).layout == old(config).layout,
        final(config).states == old(config).states,
        final(config).colors == old(config).colors,
        final(config).saved_accounts == old(config).saved_accounts,
{
    let next = if str_eq(config.theme.as_str(), "frost") {
        owned("pastel")
    } else if str_eq(config.theme.as_str(), "pastel") {
        owned("neon")
    } else {
        owned("frost")
    };
    config.theme = next;
}

/// Handles one key in the main menu. Enter on entry 0 moves to the next
/// theme; on entries 1 to 4 it toggles the git, quota, context bar and
/// settings icon switches.
pub fn config_menu_step(selected: usize, config: &mut UserConfig, key: MenuKey) -> (r: (
    usize,
    MenuAction,
))
    requires
        selected < MENU_ITEM_COUNT,
    ensures
        r.0 < MENU_ITEM_COUNT,
        r.0 as nat == menu_selection(selected as nat, key, 8),
        r.1 == menu_action(selected as nat, key),
        ({
            let enter = key == MenuKey::Enter;
            let o = *old(config);
            let c = *final(config);
            &&& (enter && selected == 0) ==> c.theme@ == next_theme(o.theme@)
            &&& !(enter && selected == 0) ==> c.theme == o.theme
            &&& c.layout == if enter {
                toggled(o.layout, selected as nat)
            } else {
                o.layout
            }
            &&& c.states == o.states
            &&& c.colors == o.colors
            &&& c.saved_accounts == o.saved_accounts
        }),
{
    match key {
        MenuKey::Up => {
            let s = if selected > 0 {
                selected - 1
            } else {
                MENU_ITEM_COUNT - 1
            };
            (s, MenuAction::Stay)
        },
        MenuKey::Down => {
            let s = if selected < MENU_ITEM_COUNT - 1 {
                selected + 1
            } else {
                0
            };
            (s, MenuAction::Stay)
        },
        MenuKey::Enter => {
            if selected == 0 {
                proof {
                    lemma_toggled_other(config.layout, 0);
                }
                cycle_theme(config);
                (selected, MenuAction::Stay)
            } else if selected <= 4 {
                toggle_switch(config, selected);
                (selected, MenuAction::Stay)
            } else if selected == 5 {
                proof {
                    lemma_toggled_other(config.layout, 5);
                }
                (selected, MenuAction::OpenAccounts)
            } else if selected == 6 {
                proof {
                    lemma_toggled_other(config.layout, 6);
                }
                (selected, MenuAction::SaveAndExit)
            } else {
                proof {
                    lemma_toggled_other(config.layout, 7);
                }
                (selected, MenuAction::Exit)
            }
        },
        MenuKey::Escape => (selected, MenuAction::Exit),
        _ => (selected, MenuAction::Stay),
    }
}

/// The state of a switch.
pub open spec fn switch_text(on: bool) -> Seq<char> {
    if on {
        "\u{25cf} Enabled"@
    } else {
        "\u{25cb} Disabled"@
    }
}

/// The name of a switch entry (1 to 4).
pub open spec fn switch_name(i: nat) -> Seq<char> {
    if i == 1 {
        "Show Git VCS Info: "@
    } else if i == 2 {
        "Show Model Quota: "@
    } else if i == 3 {
        "Show Context Token Bar: "@
    } else {
        "Show Settings Gear Icon: "@
    }
}

/// The state of a switch entry (1 to 4).
pub open spec fn switch_on(i: nat, c: UserConfig) -> bool {
    if i == 1 {
        c.layout.show_vcs
    } else if i == 2 {
        c.layout.show_quota
    } else if i == 3 {
        c.layout.show_context_bar
    } else {
        c.layout.show_settings
    }
}

/// The plain text of a menu entry.
pub open spec fn menu_item_text(i: nat, c: UserConfig) -> Seq<char> {
    if i == 0 {
        "Theme: "@ + c.theme@
    } else if 1 <= i <= 4 {
        switch_name(i) + switch_text(switch_on(i, c))
    } else if i == 5 {
        "Account Management"@
    } else if i == 6 {
        "Save & Exit"@
    } else {
        "Cancel & Exit"@
    }
}

/// The text of an unselected entry: switches show their state in colour.
pub open spec fn menu_item_colored(i: nat, c: UserConfig, p: Palette) -> Seq<char> {
    if 1 <= i <= 4 {
        switch_name(i) + if switch_on(i, c) {
            p.success@ + "\u{25cf} Enabled"@ + p.label@
        } else {
            p.border@ + "\u{25cb} Disabled"@ + p.label@
        }
    } else {
        menu_item_text(i, c)
    }
}

/// A menu line: the selected entry behind a bold `❯`, the others indented.
pub open spec fn menu_line(text: Seq<char>, plain: Seq<char>, is_selected: bool, p: Palette) -> Seq<
    char,
> {
    if is_selected {
        " "@ + p.accent@ + "\x1b[1m"@ + "\u{276f} "@ + plain + "\x1b[0m"@
    } else {
        "   "@ + p.label@ + text + "\x1b[0m"@
    }
}

fn switch_parts(i: usize, c: &UserConfig) -> (r: (&'static str, bool))
    requires
        1 <= i <= 4,
    ensures
        r.0@ == switch_name(i as nat),
        r.1 == switch_on(i as nat, *c),
{
    if i == 1 {
        ("Show Git VCS Info: ", c.layout.show_vcs)
    } else if i == 2 {
        ("Show Model Quota: ", c.layout.show_quota)
    } else if i == 3 {
        ("Show Context Token Bar: ", c.layout.show_context_bar)
    } else {
        ("Show Settings Gear Icon: ", c.layout.show_settings)
    }
}

fn menu_item_plain(i: usize, c: &UserConfig) -> (r: String)
    requires
        i < MENU_ITEM_COUNT,
    ensures
        r@ == menu_item_text(i as nat, *c),
{
    if i == 0 {
        let mut s = owned("Theme: ");
        push_str(&mut s, c.theme.as_str());
        s
    } else if i <= 4 {
        let (name, on) = switch_parts(i, c);
        let mut s = owned(name);
        push_str(&mut s, if on {
            "\u{25cf} Enabled"
        } else {
            "\u{25cb} Disabled"
        });
        s
    } else if i == 5 {
        owned("Account Management")
    } else if i == 6 {
        owned("Save & Exit")
    } else {
        owned("Cancel & Exit")
    }
}

/// Draws a line of a menu (see `menu_line`).
pub fn menu_line_text(text: &str, plain: &str, is_selected: bool, p: &Palette) -> (r: String)
    ensures
        r@ == menu_line(text@, plain@, is_selected, *p),
{
    if is_selected {
        let mut s = owned(" ");
        push_str(&mut s, p.accent);
        push_str(&mut s, "\x1b[1m");
        push_str(&mut s, "\u{276f} ");
        push_str(&mut s, plain);
        push_str(&mut s, "\x1b[0m");
        s
    } else {
        let mut s = owned("   ");
        push_str(&mut s, p.label);
        push_str(&mut s, text);
        push_str(&mut s, "\x1b[0m");
        s
    }
}

/// Draws entry `i` of the main menu.
pub fn config_menu_line(i: usize, c: &UserConfig, selected: usize, p: &Palette) -> (r: String)
    requires
        i < MENU_ITEM_COUNT,
    ensures
        r@ == menu_line(
            menu_item_colored(i as nat, *c, *p),
            menu_item_text(i as nat, *c),
            i == selected,
            *p,
        ),
{
    let plain = menu_item_plain(i, c);
    let colored = if 1 <= i && i <= 4 {
        let (name, on) = switch_parts(i, c);
        let mut s = owned(name);
        if on {
            push_str(&mut s, p.success);
            push_str(&mut s, "\u{25cf} Enabled");
        } else {
            push_str(&mut s, p.border);
            push_str(&mut s, "\u{25cb} Disabled");
        }
        push_str(&mut s, p.label);
        s
    } else {
        menu_item_plain(i, c)
    };
    menu_line_text(colored.as_str(), plain.as_str(), i == selected, p)
}

// ---------------------------------------------------------------------------
// Accounts
// ---------------------------------------------------------------------------

/// Keeps what may stand in an alias: no control characters, no `:`.
pub open spec fn keep_alias_chars(s: Seq<char>) -> Seq<char>
    decreases s.len(),
{
    if s.len() == 0 {
        s
    } else if !is_control_char(s.last()) && s.last() != ':' {
        keep_alias_chars(s.drop_last()).push(s.last())
    } else {
        keep_alias_chars(s.drop_last())
    }
}

/// The alias made of some typed text, before it is cut: trimmed, without
/// control characters and colons.
pub open spec fn alias_chars(input: Seq<char>) -> Seq<char> {
    keep_alias_chars(trim(input))
}

/// The alias made of some typed text: see `alias_chars`, cut to its first
/// 64 characters.
pub open spec fn sanitized_alias(input: Seq<char>) -> Seq<char> {
    let a = alias_chars(input);
    if a.len() > 64 {
        a.take(64)
    } else {
        a
    }
}

fn alias_text(input: &str) -> (r: String)
    ensures
        r@ == alias_chars(input@),
{
    let t = trim_chars(&chars_of(input));
    let mut out = String::new();
    let mut i: usize = 0;
    while i < t.len()
        invariant
            i <= t@.len(),
            out@ == keep_alias_chars(t@.take(i as int)),
        decreases t.len() - i,
    {
        assert(t@.take(i + 1).drop_last() == t@.take(i as int));
        let c = t[i];
        if !is_control(c) && c != ':' {
            push_char(&mut out, c);
        }
        i = i + 1;
    }
    assert(t@.take(t@.len() as int) == t@);
    out
}

/// The alias made of some typed text: trimmed, without control characters
/// and colons, and cut to 64 characters (see `sanitized_alias`).
pub fn sanitize_alias(input: &str) -> (r: String)
    ensures
        r@ == sanitized_alias(input@),
{
    let clean = chars_of(alias_text(input).as_str());
    let n: usize = if clean.len() > 64 {
        64
    } else {
        clean.len()
    };
    let mut out = String::new();
    let mut i: usize = 0;
    while i < n
        invariant
            n <= clean@.len(),
            i <= n,
            out@ == clean@.take(i as int),
        decreases n - i,
    {
        push_char(&mut out, clean[i]);
        i = i + 1;
        assert(out@ =~= clean@.take(i as int));
    }
    assert(clean@.take(clean@.len() as int) =~= clean@);
    out
}

/// The credential name under which an account is saved.
pub fn credential_target(alias: &str) -> (r: String)
    ensures
        r@ == "gemini:antigravity:"@ + alias@,
{
    let mut s = owned("gemini:antigravity:");
    push_str(&mut s, alias);
    s
}

/// The credential name under which an account's OAuth token is saved.
pub fn oauth_credential_target(alias: &str) -> (r: String)
    ensures
        r@ == "gemini:antigravity:oauth-token:"@ + alias@,
{
    let mut s = owned("gemini:antigravity:oauth-token:");
    push_str(&mut s, alias);
    s
}

/// Whether some saved account has the given alias.
pub open spec fn has_alias(accounts: Seq<String>, alias: Seq<char>) -> bool {
    exists|i: int| 0 <= i < accounts.len() && #[trigger] accounts[i]@ == alias
}

/// The aliases of a list of saved accounts.
pub open spec fn alias_names(accounts: Seq<String>) -> Seq<Seq<char>> {
    accounts.map_values(|a: String| a@)
}

/// The aliases after registering `alias`: added at the end when its
/// credential was written and it is not there yet.
pub open spec fn registered(names: Seq<Seq<char>>, alias: Seq<char>, written: bool) -> Seq<
    Seq<char>,
> {
    if written && !names.contains(alias) {
        names.push(alias)
    } else {
        names
    }
}

proof fn lemma_has_alias_names(accounts: Seq<String>, alias: Seq<char>)
    ensures
        has_alias(accounts, alias) == alias_names(accounts).contains(alias),
{
    if has_alias(accounts, alias) {
        let i = choose|i: int| 0 <= i < accounts.len() && #[trigger] accounts[i]@ == alias;
        assert(alias_names(accounts)[i] == alias);
    }
    if alias_names(accounts).contains(alias) {
        let i = choose|i: int| 0 <= i < alias_names(accounts).len() && alias_names(accounts)[i] == alias;
        assert(accounts[i]@ == alias);
    }
}

/// Registers an alias after its credential was written: added at the end
/// when the write succeeded and the alias is not there yet.
pub fn register_saved_account(accounts: &mut Vec<String>, alias: &str, written: bool)
    ensures
        (written && !has_alias(old(accounts)@, alias@)) ==> final(accounts)@.len() == old(
            accounts,
        )@.len() + 1 && final(accounts)@.take(old(accounts)@.len() as int) == old(accounts)@
            && final(accounts)@.last()@ == alias@,
        !(written && !has_alias(old(accounts)@, alias@)) ==> final(accounts)@ == old(accounts)@,
        alias_names(final(accounts)@) == registered(alias_names(old(accounts)@), alias@, written),
{
    proof {
        lemma_has_alias_names(old(accounts)@, alias@);
    }
    if !written {
        return;
    }
    let mut i: usize = 0;
    while i < accounts.len()
        invariant
            i <= accounts@.len(),
            accounts@ == old(accounts)@,
            forall|k: int| 0 <= k < i ==> #[trigger] accounts@[k]@ != alias@,
        decreases accounts.len() - i,
    {
        if str_eq(accounts[i].as_str(), alias) {
            assert(accounts@[i as int]@ == alias@);
            proof {
                lemma_has_alias_names(old(accounts)@, alias@);
            }
            return;
        }
        i = i + 1;
    }
    accounts.push(owned(alias));
    assert(accounts@.take(old(accounts)@.len() as int) =~= old(accounts)@);
    assert(alias_names(accounts@) =~= alias_names(old(accounts)@).push(alias@));
}

/// The aliases after one try to save an account under the typed text
/// `input`: its cleaned alias is registered (see `registered`; `written` is
/// the outcome of writing its credential), and an empty one is refused.
pub open spec fn saved_after(names: Seq<Seq<char>>, input: Seq<char>, written: bool) -> Seq<
    Seq<char>,
> {
    let a = sanitized_alias(input);
    if a.len() > 0 {
        registered(names, a, written)
    } else {
        names
    }
}

/// The aliases after a series of tries, each a typed text and the outcome
/// of writing its credential.
pub open spec fn saved_after_all(names: Seq<Seq<char>>, tries: Seq<(Seq<char>, bool)>) -> Seq<
    Seq<char>,
>
    decreases tries.len(),
{
    if tries.len() == 0 {
        names
    } else {
        saved_after(saved_after_all(names, tries.drop_last()), tries.last().0, tries.last().1)
    }
}

/// No alias occurs twice.
pub open spec fn no_duplicates(names: Seq<Seq<char>>) -> bool {
    forall|i: int, j: int| 0 <= i < j < names.len() ==> names[i] != names[j]
}

/// An alias as the panel saves it: 1 to 64 characters, none of them a
/// control character or `:`.
pub open spec fn clean_alias(a: Seq<char>) -> bool {
    &&& 0 < a.len() <= 64
    &&& forall|k: int| 0 <= k < a.len() ==> !is_control_char(#[trigger] a[k]) && a[k] != ':'
}

/// The first index at or after `i` whose stored credential is `cred`.
pub open spec fn credential_index_from(stored: Seq<Option<String>>, cred: Seq<char>, i: int) -> Option<
    int,
>
    decreases stored.len() - i,
{
    if i < 0 || i >= stored.len() {
        None
    } else if stored[i] matches Some(s) && s@ == cred {
        Some(i)
    } else {
        credential_index_from(stored, cred, i + 1)
    }
}

proof fn lemma_credential_index_bounds(stored: Seq<Option<String>>, cred: Seq<char>, i: int)
    requires
        0 <= i,
    ensures
        credential_index_from(stored, cred, i) matches Some(k) ==> i <= k < stored.len(),
    decreases stored.len() - i,
{
    if i < stored.len() && !(stored[i] matches Some(s) && s@ == cred) {
        lemma_credential_index_bounds(stored, cred, i + 1);
    }
}

/// Whether a credential read from the store (none when it could not be
/// read) is the given one.
pub fn stored_credential_matches(stored: &Option<String>, credential: &str) -> (r: bool)
    ensures
        r == (stored matches Some(s) && s@ == credential@),
{
    match stored {
        Some(s) => str_eq(s.as_str(), credential),
        None => false,
    }
}

/// The alias of the first saved account whose stored credential (as read
/// from the credential store, `stored[i]` for `saved_accounts[i]`) equals
/// the given one.
pub fn find_alias_for_credential(
    credential: &str,
    saved_accounts: &Vec<String>,
    stored: &Vec<Option<String>>,
) -> (r: Option<String>)
    requires
        stored@.len() == saved_accounts@.len(),
    ensures
        match credential_index_from(stored@, credential@, 0) {
            Some(k) => r == Some(saved_accounts@[k]),
            None => r is None,
        },
{
    proof {
        lemma_credential_index_bounds(stored@, credential@, 0);
    }
    let mut i: usize = 0;
    while i < stored.len()
        invariant
            i <= stored@.len(),
            stored@.len() == saved_accounts@.len(),
            credential_index_from(stored@, credential@, 0) == credential_index_from(
                stored@,
                credential@,
                i as int,
            ),
        decreases stored.len() - i,
    {
        if let Some(s) = &stored[i] {
            if str_eq(s.as_str(), credential) {
                return Some(saved_accounts[i].clone());
            }
        }
        i = i + 1;
    }
    None
}

/// What the account menu does after a key.
pub enum AccountAction {
    /// Draw the menu again.
    Stay,
    /// Go back to the settings.
    Back,
    /// Save the active account under an alias.
    SaveCurrent,
    /// Log in with another account.
    AddAccount,
    /// Switch to the saved account with this index.
    Switch(usize),
}

/// What the account menu does after a key: its entries are the saved
/// accounts, then "save current", "add", "back".
pub open spec fn account_action(idx: nat, saved: nat, key: MenuKey) -> AccountAction {
    match key {
        MenuKey::Enter => if idx == saved + 2 {
            AccountAction::Back
        } else if idx == saved {
            AccountAction::SaveCurrent
        } else if idx == saved + 1 {
            AccountAction::AddAccount
        } else {
            AccountAction::Switch(idx as usize)
        },
        MenuKey::Escape => AccountAction::Back,
        _ => AccountAction::Stay,
    }
}

/// Handles one key in the account menu.
pub fn account_menu_step(idx: usize, saved_count: usize, key: MenuKey) -> (r: (
    usize,
    AccountAction,
))
    requires
        saved_count < usize::MAX - 3,
        idx < saved_count + 3,
    ensures
        r.0 < saved_count + 3,
        r.0 as nat == menu_selection(idx as nat, key, (saved_count + 3) as nat),
        r.1 == account_action(idx as nat, saved_count as nat, key),
{
    let total = saved_count + 3;
    match key {
        MenuKey::Up => {
            let s = if idx > 0 {
                idx - 1
            } else {
                total - 1
            };
            (s, AccountAction::Stay)
        },
        MenuKey::Down => {
            let s = if idx < total - 1 {
                idx + 1
            } else {
                0
            };
            (s, AccountAction::Stay)
        },
        MenuKey::Enter => {
            if idx == saved_count + 2 {
                (idx, AccountAction::Back)
            } else if idx == saved_count {
                (idx, AccountAction::SaveCurrent)
            } else if idx == saved_count + 1 {
                (idx, AccountAction::AddAccount)
            } else {
                (idx, AccountAction::Switch(idx))
            }
        },
        MenuKey::Escape => (idx, AccountAction::Back),
        _ => (idx, AccountAction::Stay),
    }
}

/// The line that names the active account.
pub open spec fn active_account_line(logged_in: bool, alias: Option<String>, p: Palette) -> Seq<
    char,
> {
    if !logged_in {
        "  "@ + p.label@ + "Current Active: "@ + p.critical@ + "Not Logged In"@ + "\x1b[0m"@
    } else {
        match alias {
            Some(a) => "  "@ + p.label@ + "Current Active: "@ + p.success@ + a@ + " (Saved)"@
                + "\x1b[0m"@,
            None => "  "@ + p.label@ + "Current Active: "@ + p.warning@ + "Unsaved Account"@
                + "\x1b[0m"@,
        }
    }
}

/// Draws the line that names the active account.
pub fn active_account_text(logged_in: bool, alias: &Option<String>, p: &Palette) -> (r: String)
    ensures
        r@ == active_account_line(logged_in, *alias, *p),
{
    let mut s = owned("  ");
    push_str(&mut s, p.label);
    push_str(&mut s, "Current Active: ");
    if !logged_in {
        push_str(&mut s, p.critical);
        push_str(&mut s, "Not Logged In");
    } else {
        match alias {
            Some(a) => {
                push_str(&mut s, p.success);
                push_str(&mut s, a.as_str());
                push_str(&mut s, " (Saved)");
            },
            None => {
                push_str(&mut s, p.warning);
                push_str(&mut s, "Unsaved Account");
            },
        }
    }
    push_str(&mut s, "\x1b[0m");
    s
}

/// The label of the "save current account" entry.
pub open spec fn save_label(alias: Option<String>) -> Seq<char> {
    match alias {
        Some(a) => "[Save Current Account] (Saved as '"@ + a@ + "')"@,
        None => "[Save Current Account]"@,
    }
}

/// Draws the label of the "save current account" entry.
pub fn save_label_text(alias: &Option<String>) -> (r: String)
    ensures
        r@ == save_label(*alias),
{
    match alias {
        Some(a) => {
            let mut s = owned("[Save Current Account] (Saved as '");
            push_str(&mut s, a.as_str());
            push_str(&mut s, "')");
            s
        },
        None => owned("[Save Current Account]"),
    }
}

/// Before a new login the active account must be saved first when there is
/// one and no saved alias holds its credential.
pub fn must_save_active_account(main_cred: &str, active_alias: &Option<String>) -> (r: bool)
    ensures
        r == (main_cred@.len() > 0 && active_alias is None),
{
    chars_of(main_cred).len() > 0 && active_alias.is_none()
}

/// The credential of a fresh login: the main credential, or the token file
/// when the main credential is empty.
pub fn effective_credential(main_cred: &str, local_token: &str) -> (r: String)
    ensures
        r@ == if main_cred@.len() > 0 {
            main_cred@
        } else {
            local_token@
        },
{
    if chars_of(main_cred).len() > 0 {
        owned(main_cred)
    } else {
        owned(local_token)
    }
}

/// What the token file holds after switching to a saved account: the
/// account's saved OAuth token, or its main credential when it has none.
pub fn switched_token_file(saved_token: &Option<String>, backup_cred: &str) -> (r: String)
    ensures
        r@ == match saved_token {
            Some(t) => t@,
            None => backup_cred@,
        },
{
    match saved_token {
        Some(t) => t.clone(),
        None => owned(backup_cred),
    }
}

/// A switch counts as done, and the cache is dropped, when either the main
/// credential or the token file was written.
pub fn switch_succeeded(main_written: bool, file_written: bool) -> (r: bool)
    ensures
        r == (main_written || file_written),
{
    main_written || file_written
}

/// What follows a login run: a new account with its credential, or, when
/// the run left no credential, the previous state to restore (each part
/// only when it was not empty).
pub enum LoginResult {
    NewAccount(String),
    Restore { main: Option<String>, token_file: Option<String> },
}

/// Decides what follows a login run from the credentials found after it
/// (`new_main`, `new_local`) and those found before it (`old_main`,
/// `old_local`).
pub fn after_login(new_main: &str, new_local: &str, old_main: &str, old_local: &str) -> (r:
    LoginResult)
    ensures
        (new_main@.len() > 0 || new_local@.len() > 0) ==> (r matches LoginResult::NewAccount(c)
            && c@ == if new_main@.len() > 0 {
            new_main@
        } else {
            new_local@
        }),
        (new_main@.len() == 0 && new_local@.len() == 0) ==> (r matches LoginResult::Restore {
            main,
            token_file,
        } && (if old_main@.len() > 0 {
            main matches Some(m) && m@ == old_main@
        } else {
            main is None
        }) && (if old_local@.len() > 0 {
            token_file matches Some(t) && t@ == old_local@
        } else {
            token_file is None
        })),
{
    if chars_of(new_main).len() > 0 || chars_of(new_local).len() > 0 {
        LoginResult::NewAccount(effective_credential(new_main, new_local))
    } else {
        let main = if chars_of(old_main).len() > 0 {
            Some(owned(old_main))
        } else {
            None
        };
        let token_file = if chars_of(old_local).len() > 0 {
            Some(owned(old_local))
        } else {
            None
        };
        LoginResult::Restore { main, token_file }
    }
}

// ---------------------------------------------------------------------------
// The alias line editor
// ---------------------------------------------------------------------------

/// What the line editor does after a key.
pub enum LineEdit {
    /// Keep reading; write the text (possibly empty) to the terminal.
    Continue(String),
    /// Enter: the line is done.
    Done,
    /// Escape: the line is abandoned.
    Cancel,
}

/// The typed text after a key: a printable character other than `:` is
/// added, Backspace removes the last character.
pub open spec fn edited(input: Seq<char>, key: MenuKey) -> Seq<char> {
    match key {
        MenuKey::Char(c) => if !is_control_char(c) && c != ':' {
            input.push(c)
        } else {
            input
        },
        MenuKey::Backspace => if input.len() > 0 {
            input.drop_last()
        } else {
            input
        },
        _ => input,
    }
}

/// Handles one key while an alias is typed: printable characters other
/// than `:` are added and echoed, Backspace removes the last one.
pub fn line_edit_step(input: &mut Vec<char>, key: MenuKey) -> (r: LineEdit)
    ensures
        final(input)@ == edited(old(input)@, key),
        match key {
            MenuKey::Char(c) => if !is_control_char(c) && c != ':' {
                final(input)@ == old(input)@.push(c) && (r matches LineEdit::Continue(s) && s@
                    == seq![c])
            } else {
                final(input)@ == old(input)@ && (r matches LineEdit::Continue(s) && s@.len() == 0)
            },
            MenuKey::Backspace => if old(input)@.len() > 0 {
                final(input)@ == old(input)@.drop_last() && (r matches LineEdit::Continue(s)
                    && s@ == "\x08 \x08"@)
            } else {
                final(input)@ == old(input)@ && (r matches LineEdit::Continue(s) && s@.len() == 0)
            },
            MenuKey::Enter => final(input)@ == old(input)@ && r is Done,
            MenuKey::Escape => final(input)@ == old(input)@ && r is Cancel,
            _ => final(input)@ == old(input)@ && (r matches LineEdit::Continue(s) && s@.len() == 0),
        },
{
    match key {
        MenuKey::Char(c) => {
            if !is_control(c) && c != ':' {
                input.push(c);
                let mut s = String::new();
                push_char(&mut s, c);
                LineEdit::Continue(s)
            } else {
                LineEdit::Continue(String::new())
            }
        },
        MenuKey::Backspace => {
            if input.len() > 0 {
                input.pop();
                LineEdit::Continue(owned("\x08 \x08"))
            } else {
                LineEdit::Continue(String::new())
            }
        },
        MenuKey::Enter => LineEdit::Done,
        MenuKey::Escape => LineEdit::Cancel,
        _ => LineEdit::Continue(String::new()),
    }
}


// ---------------------------------------------------------------------------
// Laws
// ---------------------------------------------------------------------------

/// Moving down and then up returns to the same entry.
pub proof fn law_up_undoes_down(selected: nat, count: nat)
    requires
        selected < count,
    ensures
        menu_selection(menu_selection(selected, MenuKey::Down, count), MenuKey::Up, count)
            == selected,
{
}

/// Moving up and then down returns to the same entry.
pub proof fn law_down_undoes_up(selected: nat, count: nat)
    requires
        selected < count,
    ensures
        menu_selection(menu_selection(selected, MenuKey::Up, count), MenuKey::Down, count)
            == selected,
{
}

/// Three presses on the theme entry cycle through the three themes and back.
pub proof fn law_theme_cycle(k: Seq<char>)
    requires
        is_theme_key(k),
    ensures
        next_theme(next_theme(next_theme(k))) == k,
        next_theme(k) != k,
{
    reveal_strlit("frost");
    reveal_strlit("pastel");
    reveal_strlit("neon");
    assert("frost"@ != "pastel"@ && "pastel"@ != "neon"@ && "neon"@ != "frost"@) by {
        assert("frost"@.len() != "pastel"@.len());
        assert("pastel"@.len() != "neon"@.len());
        assert("neon"@[0] != "frost"@[0]);
    }
}

proof fn lemma_keep_alias_clean(s: Seq<char>)
    ensures
        forall|k: int|
            0 <= k < keep_alias_chars(s).len() ==> {
                let c = #[trigger] keep_alias_chars(s)[k];
                !is_control_char(c) && c != ':'
            },
    decreases s.len(),
{
    if s.len() > 0 {
        lemma_keep_alias_clean(s.drop_last());
        let prev = keep_alias_chars(s.drop_last());
        let cur = keep_alias_chars(s);
        assert forall|k: int| 0 <= k < cur.len() implies {
            let c = #[trigger] cur[k];
            !is_control_char(c) && c != ':'
        } by {
            if k < prev.len() {
                assert(cur[k] == prev[k]);
            }
        }
    }
}

/// A cleaned alias holds no control character and no `:`, has at most 64
/// characters, and is the start of the trimmed input with those characters
/// left out.
pub proof fn law_alias_chars_clean(input: Seq<char>)
    ensures
        forall|k: int|
            0 <= k < sanitized_alias(input).len() ==> {
                let c = #[trigger] sanitized_alias(input)[k];
                !is_control_char(c) && c != ':'
            },
        sanitized_alias(input).len() <= 64,
        sanitized_alias(input).is_prefix_of(alias_chars(input)),
        alias_chars(input).len() <= 64 ==> sanitized_alias(input) == alias_chars(input),
{
    lemma_keep_alias_clean(trim(input));
    let a = alias_chars(input);
    assert forall|k: int| 0 <= k < sanitized_alias(input).len() implies sanitized_alias(input)[k]
        == a[k] by {}
}

/// Backspace takes back a character that was just typed.
pub proof fn law_backspace_undoes_typing(input: Seq<char>, c: char)
    requires
        !is_control_char(c),
        c != ':',
    ensures
        edited(edited(input, MenuKey::Char(c)), MenuKey::Backspace) == input,
{
    assert(input.push(c).drop_last() =~= input);
}

/// Over any series of tries to save accounts, the saved aliases only grow:
/// the old list stays in front, no alias occurs twice, and every added alias
/// is clean (see `clean_alias`).
pub proof fn law_saved_accounts_grow(names: Seq<Seq<char>>, tries: Seq<(Seq<char>, bool)>)
    requires
        no_duplicates(names),
    ensures
        names.is_prefix_of(saved_after_all(names, tries)),
        no_duplicates(saved_after_all(names, tries)),
        forall|k: int|
            names.len() <= k < saved_after_all(names, tries).len() ==> clean_alias(
                #[trigger] saved_after_all(names, tries)[k],
            ),
    decreases tries.len(),
{
    if tries.len() > 0 {
        let prev = saved_after_all(names, tries.drop_last());
        law_saved_accounts_grow(names, tries.drop_last());
        let input = tries.last().0;
        let a = sanitized_alias(input);
        law_alias_chars_clean(input);
        let r = saved_after_all(names, tries);
        assert(r == saved_after(prev, input, tries.last().1));
        if a.len() > 0 && tries.last().1 && !prev.contains(a) {
            assert(r == prev.push(a));
            assert forall|i: int, j: int| 0 <= i < j < r.len() implies r[i] != r[j] by {
                if j == r.len() - 1 {
                    assert(r[i] == prev[i]);
                    if r[i] == r[j] {
                        assert(prev.contains(a));
                    }
                }
            }
            assert forall|k: int| names.len() <= k < r.len() implies clean_alias(#[trigger] r[k]) by {
                if k < prev.len() {
                    assert(r[k] == prev[k]);
                } else {
                    assert(r[k] == a);
                    assert forall|q: int| 0 <= q < a.len() implies !is_control_char(#[trigger] a[q])
                        && a[q] != ':' by {
                        assert(a[q] == sanitized_alias(input)[q]);
                    }
                }
            }
            assert(names.is_prefix_of(r)) by {
                assert forall|q: int| 0 <= q < names.len() implies names[q] == r[q] by {
                    assert(prev[q] == names[q]);
                }
            }
        }
    }
}

/// Each switch entry of the main menu names the layout switch it shows:
/// entry 1 the git info (`show_vcs`), 2 the model quota (`show_quota`), 3
/// the context token bar (`show_context_bar`), 4 the settings icon
/// (`show_settings`); Enter on the entry flips exactly that switch and
/// leaves the rest of the layout as it was.
pub proof fn law_switch_entry_flips_its_switch(c: UserConfig, i: nat)
    requires
        1 <= i <= 4,
    ensures
        menu_item_text(1, c) == "Show Git VCS Info: "@ + switch_text(c.layout.show_vcs),
        menu_item_text(2, c) == "Show Model Quota: "@ + switch_text(c.layout.show_quota),
        menu_item_text(3, c) == "Show Context Token Bar: "@ + switch_text(c.layout.show_context_bar),
        menu_item_text(4, c) == "Show Settings Gear Icon: "@ + switch_text(c.layout.show_settings),
        ({
            let l = c.layout;
            let a = toggled(l, i);
            &&& a.show_vcs == (l.show_vcs != (i == 1))
            &&& a.show_quota == (l.show_quota != (i == 2))
            &&& a.show_context_bar == (l.show_context_bar != (i == 3))
            &&& a.show_settings == (l.show_settings != (i == 4))
            &&& a.show_state == l.show_state && a.show_model == l.show_model && a.show_path
                == l.show_path && a.show_quota_bar == l.show_quota_bar
            &&& a.show_pending_input == l.show_pending_input && a.show_approval_alert
                == l.show_approval_alert && a.show_cache_stats == l.show_cache_stats
            &&& a.show_artifacts == l.show_artifacts && a.show_subagents == l.show_subagents
                && a.show_tasks == l.show_tasks && a.show_sandbox == l.show_sandbox
            &&& a.show_conversation_id == l.show_conversation_id && a.show_version
                == l.show_version && a.show_plan_tier == l.show_plan_tier && a.show_email
                == l.show_email
        }),
        forall|j: nat|
            1 <= j <= 4 ==> (switch_on(j, UserConfig { layout: toggled(c.layout, i), ..c })
                != switch_on(j, c)) == (j == i),
{
}

} // verus!
