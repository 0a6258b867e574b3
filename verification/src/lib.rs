//! Core of a Sphinx-style documentation compiler: a block-level scanner that
//! turns reStructuredText into an AST, an inline-markup engine, an
//! AST-to-HTML renderer with directive dispatch, and a navigation/toctree
//! builder, together with directive, role and cross-reference validation.

pub mod directives;
pub mod document;
pub mod domains;
pub mod error;
pub mod inline;
pub mod matching;
pub mod navigation;
pub mod parser;
pub mod renderer;
pub mod strmap;
pub mod text;
pub mod theme;
pub mod validation;

use vstd::prelude::*;

verus! {

/// Fixed mapping from an underline character to a heading level.
pub fn get_rst_title_level(c: char) -> (level: usize)
    ensures
        level == spec_title_level(c),
{
    match c {
        '#' => 1,
        '*' => 2,
        '=' => 3,
        '-' => 4,
        '^' => 5,
        '"' => 6,
        _ => 7,
    }
}

/// The heading level assigned to each underline character.
pub open spec fn spec_title_level(c: char) -> usize {
    if c == '#' {
        1usize
    } else if c == '*' {
        2usize
    } else if c == '=' {
        3usize
    } else if c == '-' {
        4usize
    } else if c == '^' {
        5usize
    } else if c == '"' {
        6usize
    } else {
        7usize
    }
}

} // verus!
