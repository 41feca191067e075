//! A generator of fixed program text, chosen by the configuration.

use vstd::prelude::*;
use vstd::string::*;
use crate::config::Config;
use crate::text::same_text;

verus! {

/// The lines that search for food, by search pattern.
pub open spec fn search_logic(pattern: Seq<char>) -> Seq<char> {
    if pattern == "random"@ {
        "    Flip 2 1 10\n    Turn Left 0\n    Turn Right 0\n"@
    } else if pattern == "pattern"@ {
        "    Move 1 10\n    Turn Left 0\n    Turn Right 0\n"@
    } else {
        "    Move 0 10 \n"@
    }
}

/// The lines that collect food.
pub open spec fn food_collection_logic() -> Seq<char> {
    "    Sense Ahead 101 0 Food\n    PickUp 200 0\n"@
}

/// The lines that carry food home.
pub open spec fn base_navigation_logic() -> Seq<char> {
    "    Sense Ahead 201 0 HomeBase\n    Move 200 0\n    Drop 0\n"@
}

/// The whole program: three labelled sections.
pub open spec fn program_text(pattern: Seq<char>) -> Seq<char> {
    "label 0:\n"@ + search_logic(pattern) + "label 100:\n"@ + food_collection_logic()
        + "label 200:\n"@ + base_navigation_logic()
}

pub struct RobotoProgram {
    config: Config,
}

impl RobotoProgram {
    /// The search pattern of the configuration that this generator holds.
    pub closed spec fn search_pattern(&self) -> Seq<char> {
        self.config.search_pattern@
    }

    pub fn new(config: Config) -> (r: Self)
        ensures
            r.search_pattern() == config.search_pattern@,
    {
        RobotoProgram { config }
    }

    /// The program text for the configured search pattern.
    pub fn generate(&self) -> (program: String)
        ensures
            program@ == program_text(self.search_pattern()),
    {
        let mut program = String::new();
        program.append("label 0:\n");
        program.append(self.generate_search_logic().as_str());
        program.append("label 100:\n");
        program.append(self.generate_food_collection_logic().as_str());
        program.append("label 200:\n");
        program.append(self.generate_base_navigation_logic().as_str());
        assert(program@ =~= program_text(self.search_pattern()));
        program
    }

    fn generate_search_logic(&self) -> (r: String)
        ensures
            r@ == search_logic(self.search_pattern()),
    {
        let pattern = self.config.search_pattern.as_str();
        if same_text(pattern, "random") {
            String::from_str("    Flip 2 1 10\n    Turn Left 0\n    Turn Right 0\n")
        } else if same_text(pattern, "pattern") {
            String::from_str("    Move 1 10\n    Turn Left 0\n    Turn Right 0\n")
        } else {
            String::from_str("    Move 0 10 \n")
        }
    }

    fn generate_food_collection_logic(&self) -> (r: String)
        ensures
            r@ == food_collection_logic(),
    {
        String::from_str("    Sense Ahead 101 0 Food\n    PickUp 200 0\n")
    }

    fn generate_base_navigation_logic(&self) -> (r: String)
        ensures
            r@ == base_navigation_logic(),
    {
        String::from_str("    Sense Ahead 201 0 HomeBase\n    Move 200 0\n    Drop 0\n")
    }
}

} // verus!
