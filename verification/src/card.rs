pub mod card;
pub mod cardvalue;
pub mod suit;
