//! Building blocks for programs whose parts run side by side: a blocking channel
//! between many producers and one consumer, and a few small companions.

pub mod channels;
pub mod iterators;
pub mod str_split;
pub mod atomics;
pub mod cell;
pub mod ref_cell;
