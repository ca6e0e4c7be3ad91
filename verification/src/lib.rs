//! Mille: a three-player Tysiąc card game engine with verified rules.
pub mod cards;
pub mod i18n;
pub mod protocol;
pub mod server;
mod draws;
pub mod text;
pub mod tysiac;
pub mod web;
