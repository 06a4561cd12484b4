//! A builder for SVG path data made of straight lines and moves.
use crate::text::{int_text, int_to_text, trim, trim_text};
use vstd::prelude::*;

verus! {

/// The text of a command with one number: the letter, the number, a space.
pub open spec fn command1(letter: char, a: int) -> Seq<char> {
    seq![letter, ' '] + int_text(a) + seq![' ']
}

/// The text of a command with two numbers.
pub open spec fn command2(letter: char, a: int, b: int) -> Seq<char> {
    seq![letter, ' '] + int_text(a) + seq![' '] + int_text(b) + seq![' ']
}

/// Path data in SVG's path mini-language, one command after another.
pub struct Path {
    path_string: String,
}

impl View for Path {
    type V = Seq<char>;

    closed spec fn view(&self) -> Seq<char> {
        self.path_string@
    }
}

impl Path {
    /// A path with no commands.
    pub fn new() -> (r: Path)
        ensures
            r@ == Seq::<char>::empty(),
    {
        Path { path_string: String::new() }
    }

    /// The commands so far, without the space after the last one.
    pub fn output(&self) -> (r: &str)
        ensures
            r@ == trim(self@),
    {
        trim_text(self.path_string.as_str())
    }

    /// Appends a line to the absolute point (x, y).
    #[allow(non_snake_case)]
    pub fn L(self, x: i32, y: i32) -> (r: Path)
        ensures
            r@ == self@ + command2('L', x as int, y as int),
    {
        let mut p = self;
        p.add_command2("L ", x, y);
        proof { reveal_strlit("L "); }
        p
    }

    /// Appends a move to the absolute point (x, y).
    #[allow(non_snake_case)]
    pub fn M(self, x: i32, y: i32) -> (r: Path)
        ensures
            r@ == self@ + command2('M', x as int, y as int),
    {
        let mut p = self;
        p.add_command2("M ", x, y);
        proof { reveal_strlit("M "); }
        p
    }

    /// Appends a horizontal line, `x` relative to the current point.
    pub fn h(self, x: i32) -> (r: Path)
        ensures
            r@ == self@ + command1('h', x as int),
    {
        let mut p = self;
        p.add_command1("h ", x);
        proof { reveal_strlit("h "); }
        p
    }

    /// Appends a vertical line, `y` relative to the current point.
    pub fn v(self, y: i32) -> (r: Path)
        ensures
            r@ == self@ + command1('v', y as int),
    {
        let mut p = self;
        p.add_command1("v ", y);
        proof { reveal_strlit("v "); }
        p
    }

    /// Closes the current subpath.
    pub fn z(self) -> (r: Path)
        ensures
            r@ == self@ + seq!['z', ' '],
    {
        let mut p = self;
        p.add("z ");
        proof { reveal_strlit("z "); }
        p
    }

    fn add(&mut self, s: &str)
        ensures
            final(self)@ == old(self)@ + s@,
    {
        self.path_string.append(s);
    }

    fn add_command1(&mut self, head: &str, a: i32)
        ensures
            final(self)@ == old(self)@ + head@ + int_text(a as int) + seq![' '],
    {
        self.add(head);
        self.add(int_to_text(a).as_str());
        self.add(" ");
        proof { reveal_strlit(" "); }
        assert(self@ =~= old(self)@ + head@ + int_text(a as int) + seq![' ']);
    }

    fn add_command2(&mut self, head: &str, a: i32, b: i32)
        ensures
            final(self)@ == old(self)@ + head@ + int_text(a as int) + seq![' '] + int_text(b as int)
                + seq![' '],
    {
        self.add_command1(head, a);
        self.add(int_to_text(b).as_str());
        self.add(" ");
        proof { reveal_strlit(" "); }
        assert(self@ =~= old(self)@ + head@ + int_text(a as int) + seq![' '] + int_text(b as int)
            + seq![' ']);
    }
}

} // verus!
