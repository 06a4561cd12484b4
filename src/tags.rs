//! One SVG element: its name and its attributes in order.
use vstd::prelude::*;

verus! {

/// An attribute on a line of its own: three spaces, then `name="value"`.
pub open spec fn attr_line(a: Seq<char>, v: Seq<char>) -> Seq<char> {
    seq![' ', ' ', ' '] + a + seq!['=', '"'] + v + seq!['"']
}

/// The attribute lines, separated by line breaks.
pub open spec fn attr_lines(attrs: Seq<(Seq<char>, Seq<char>)>) -> Seq<char>
    decreases attrs.len(),
{
    if attrs.len() == 0 {
        Seq::empty()
    } else if attrs.len() == 1 {
        attr_line(attrs[0].0, attrs[0].1)
    } else {
        attr_lines(attrs.drop_last()) + seq!['\n'] + attr_line(attrs.last().0, attrs.last().1)
    }
}

/// The opening tag: `<name`, a line break, the attribute lines, `>` and a line break.
pub open spec fn open_text(name: Seq<char>, attrs: Seq<(Seq<char>, Seq<char>)>) -> Seq<char> {
    seq!['<'] + name + seq!['\n'] + attr_lines(attrs) + seq!['>', '\n']
}

/// The closing tag `</name>` and a line break.
pub open spec fn close_text(name: Seq<char>) -> Seq<char> {
    seq!['<', '/'] + name + seq!['>', '\n']
}

/// An element's name and its attributes, in the order they were added.
#[derive(Clone, Debug)]
pub struct Tag {
    name: String,
    attrs: Vec<(String, String)>,
}

pub open spec fn pair_view(p: (String, String)) -> (Seq<char>, Seq<char>) {
    (p.0@, p.1@)
}

impl View for Tag {
    type V = (Seq<char>, Seq<(Seq<char>, Seq<char>)>);

    closed spec fn view(&self) -> Self::V {
        (self.name@, self.attrs@.map_values(|p: (String, String)| pair_view(p)))
    }
}

impl Tag {
    /// An element named `name`, without attributes.
    pub fn new(name: &str) -> (r: Tag)
        ensures
            r@ == (name@, Seq::<(Seq<char>, Seq<char>)>::empty()),
    {
        let r = Tag { name: String::from_str(name), attrs: Vec::new() };
        assert(r@.1 =~= Seq::<(Seq<char>, Seq<char>)>::empty());
        r
    }

    /// The element with the attribute `attr="value"` added after the others.
    pub fn attr(self, attr: &str, value: &str) -> (r: Tag)
        ensures
            r@ == (self@.0, self@.1.push((attr@, value@))),
    {
        let mut t = self;
        t.attrs.push((String::from_str(attr), String::from_str(value)));
        assert(t@.1 =~= self@.1.push((attr@, value@)));
        t
    }

    /// The opening tag, attributes included.
    pub fn open(&self) -> (r: String)
        ensures
            r@ == open_text(self@.0, self@.1),
    {
        let mut s = String::from_str("<");
        s.append(self.name.as_str());
        s.append("\n");
        proof {
            reveal_strlit("<");
            reveal_strlit("\n");
        }
        let ghost head = s@;
        let ghost attrs = self@.1;
        let mut i: usize = 0;
        while i < self.attrs.len()
            invariant
                i <= self.attrs@.len(),
                attrs.len() == self.attrs@.len(),
                attrs == self@.1,
                head == seq!['<'] + self@.0 + seq!['\n'],
                s@ == head + attr_lines(attrs.subrange(0, i as int)),
            decreases self.attrs@.len() - i,
        {
            let ghost before = s@;
            if i > 0 {
                s.append("\n");
            }
            s.append("   ");
            s.append(self.attrs[i].0.as_str());
            s.append("=\"");
            s.append(self.attrs[i].1.as_str());
            s.append("\"");
            proof {
                reveal_strlit("\n");
                reveal_strlit("   ");
                reveal_strlit("=\"");
                reveal_strlit("\"");
                let next = attrs.subrange(0, i + 1);
                assert(next.drop_last() =~= attrs.subrange(0, i as int));
                assert(attrs[i as int] == pair_view(self.attrs@[i as int]));
                if i == 0 {
                    assert(s@ =~= head + attr_lines(next));
                } else {
                    assert(s@ =~= head + attr_lines(next));
                }
            }
            i = i + 1;
        }
        s.append(">\n");
        proof {
            reveal_strlit(">\n");
            assert(attrs.subrange(0, i as int) =~= attrs);
            assert(s@ =~= open_text(self@.0, self@.1));
        }
        s
    }

    /// The closing tag.
    pub fn close(&self) -> (r: String)
        ensures
            r@ == close_text(self@.0),
    {
        let mut s = String::from_str("</");
        s.append(self.name.as_str());
        s.append(">\n");
        proof {
            reveal_strlit("</");
            reveal_strlit(">\n");
            assert(s@ =~= close_text(self@.0));
        }
        s
    }
}

} // verus!
