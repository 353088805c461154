//! The footer's help texts: the key legend shown by the ordering menu
//! and by the help overlay. The render loop draws them; their content is
//! fixed here.

use vstd::prelude::*;

verus! {

/// A key legend: pairs of a key and what it does.
pub struct FooterInfo {
    command_map: Vec<(&'static str, &'static str)>,
}

impl FooterInfo {
    /// The legend's entries, in display order.
    pub fn get_command(&self) -> (r: &Vec<(&'static str, &'static str)>)
        ensures
            r.deep_view() == self.entries(),
    {
        &self.command_map
    }

    /// The legend's mathematical content.
    pub closed spec fn entries(&self) -> Seq<(Seq<char>, Seq<char>)> {
        self.command_map.deep_view()
    }
}

/// The ordering menu's legend.
pub open spec fn ordering_entries() -> Seq<(Seq<char>, Seq<char>)> {
    seq![
        ("D"@, "Date Desc"@),
        ("d"@, "Date asc"@),
        ("T"@, "Title Desc"@),
        ("t"@, "Title asc"@),
        ("A"@, "Amount Desc"@),
        ("a"@, "Amount asc"@),
    ]
}

/// The help overlay's legend.
pub open spec fn help_entries() -> Seq<(Seq<char>, Seq<char>)> {
    seq![
        ("Enter"@, "Edit Transaction"@),
        ("o"@, "Order By"@),
        ("\u{2191}"@, "Move Up"@),
        ("\u{2193}"@, "Move Down"@),
        ("q"@, "Quit"@),
    ]
}

/// The legend the ordering menu shows: the six sort keys.
pub fn get_ordering() -> (r: FooterInfo)
    ensures
        r.entries() == ordering_entries(),
{
    let mut command_map: Vec<(&'static str, &'static str)> = Vec::new();
    command_map.push(("D", "Date Desc"));
    command_map.push(("d", "Date asc"));
    command_map.push(("T", "Title Desc"));
    command_map.push(("t", "Title asc"));
    command_map.push(("A", "Amount Desc"));
    command_map.push(("a", "Amount asc"));
    proof {
        assert(command_map.deep_view() =~= ordering_entries());
    }
    FooterInfo { command_map }
}

/// The legend the help overlay shows: the table's main bindings.
pub fn get_help() -> (r: FooterInfo)
    ensures
        r.entries() == help_entries(),
{
    let mut command_map: Vec<(&'static str, &'static str)> = Vec::new();
    command_map.push(("Enter", "Edit Transaction"));
    command_map.push(("o", "Order By"));
    command_map.push(("\u{2191}", "Move Up"));
    command_map.push(("\u{2193}", "Move Down"));
    command_map.push(("q", "Quit"));
    proof {
        assert(command_map.deep_view() =~= help_entries());
    }
    FooterInfo { command_map }
}

} // verus!
