pub mod gexf;
pub mod graph;
pub mod graphml;
pub mod graphviz;
pub mod keyed;
pub mod laws;
pub mod model;
pub mod text;
pub mod xml;
