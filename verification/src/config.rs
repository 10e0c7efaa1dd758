//! Key bindings, as read from `keybinds.toml`.
use vstd::prelude::*;
use vstd::string::*;

verus! {

#[derive(Debug)]
pub struct Keybinds {
    pub app: AppKeys,
    pub services: ServicesKeys,
    pub logs: LogsKeys,
}

#[derive(Debug)]
pub struct AppKeys {
    pub quit: String,
    pub search: String,
    pub daemon_menu: String,
    pub refresh: String,
    pub switch_tab_left: String,
    pub switch_tab_right: String,
    pub scroll_down: String,
    pub scroll_up: String,
}

#[derive(Debug)]
pub struct ServicesKeys {
    pub toggle: String,
    pub auto_restart: String,
}

#[derive(Debug)]
pub struct LogsKeys {
    pub toggle_auto_scroll: String,
}

/// The auto-restart key where the bindings name none.
pub fn default_auto_restart_key() -> (r: String)
    ensures
        r@ == "a"@,
{
    let a = "a";
    String::from_str(a)
}

/// The key a binding names: its first character, or `fallback` where it is empty.
pub fn binding_key(binding: &str, fallback: char) -> (c: char)
    ensures
        binding@.len() > 0 ==> c == binding@[0],
        binding@.len() == 0 ==> c == fallback,
{
    if binding.unicode_len() > 0 {
        binding.get_char(0)
    } else {
        fallback
    }
}

} // verus!
