//! The three settings that choose what program is generated.

use vstd::prelude::*;
use vstd::string::*;
use crate::number::{parse_u32, parse_unsigned};

verus! {

#[derive(Debug)]
pub struct Config {
    pub search_pattern: String,
    pub base_search_intensity: u32,
    pub obstacle_handling: String,
}

impl Config {
    /// Whether `lines` hold a configuration: three lines at least, the
    /// second an unsigned number of 32 bits.
    pub open spec fn readable(lines: Seq<String>) -> bool {
        lines.len() >= 3 && parse_unsigned(lines[1]@, u32::MAX as nat) is Some
    }

    /// Reads a configuration from the lines of its text: the search
    /// pattern, the search intensity, the obstacle handling. Further lines
    /// are not looked at.
    pub fn from_lines(lines: &Vec<String>) -> (r: Option<Config>)
        ensures
            r is Some <==> Config::readable(lines@),
            r matches Some(config) ==> {
                &&& config.search_pattern@ == lines@[0]@
                &&& parse_unsigned(lines@[1]@, u32::MAX as nat) == Some(
                    config.base_search_intensity as nat,
                )
                &&& config.obstacle_handling@ == lines@[2]@
            },
    {
        if lines.len() < 3 {
            return None;
        }
        match parse_u32(lines[1].as_str()) {
            Some(base_search_intensity) => Some(
                Config {
                    search_pattern: lines[0].clone(),
                    base_search_intensity,
                    obstacle_handling: lines[2].clone(),
                },
            ),
            None => None,
        }
    }
}

} // verus!
