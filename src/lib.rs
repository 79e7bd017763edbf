pub mod backend;
pub mod baton;
pub mod clients;
pub mod reactor;
pub mod surface_tree;
pub mod swap_chain;
