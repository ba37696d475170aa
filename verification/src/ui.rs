//! User-interface rules that do not depend on the browser.
pub mod recipes;
pub mod responsive_navigation;
