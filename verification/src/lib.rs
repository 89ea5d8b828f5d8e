//! Lucid's decisions and texts: the keep-awake session, the Pomodoro cycle,
//! the countdown shown in the menu bar and the menu's item ids.

pub mod chars;
pub mod countdown;
pub mod decimal;
pub mod menu;
pub mod notify;
pub mod pomodoro;
pub mod session;
