//! Dealing, classifying, ranking and rendering poker hands.
pub mod card;
pub mod cardset;
pub mod hand;
pub mod ranking;
pub mod atlas;
pub mod deal;
