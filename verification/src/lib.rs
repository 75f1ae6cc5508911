pub mod card;
pub mod eval;
pub mod hand_ranks;
