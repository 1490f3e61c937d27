//! A card-game core library: a standard playing-card model, an ordered deck
//! with positional draws, and a blackjack engine built on top of them (hand
//! totals with hard/soft ace handling, hand comparison, and a multi-box
//! dealing table drawing from a multi-deck shoe).

pub mod blackjack;
pub mod cards;
pub mod deck;
pub mod table;

pub use blackjack::{BlackjackEvaluator, HandResult, HandTotal};
pub use cards::{Card, Rank, Suit};
pub use deck::Deck;
pub use table::BlackjackTable;
