mod skip;

pub use skip::SkipList;
