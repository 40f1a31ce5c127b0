//! Layout constraints and directions for the panes of the user interface.

use vstd::prelude::*;

use crate::text::{decimal, owned, push_decimal, push_str};

verus! {

/// A size constraint of a layout section.
#[derive(Debug, Clone, Copy, Eq, PartialEq, Hash, Structural)]
pub enum Constraint {
    Min(u16),
    Max(u16),
    Length(u16),
    Percentage(u16),
    Ratio(u32, u32),
    Fill(u16),
}

impl Constraint {
    /// The textual form, e.g. `Min(3)` or `Ratio(1,2)`.
    pub open spec fn spec_display(self) -> Seq<char> {
        match self {
            Constraint::Min(v) => "Min("@ + decimal(v as nat) + ")"@,
            Constraint::Max(v) => "Max("@ + decimal(v as nat) + ")"@,
            Constraint::Length(v) => "Length("@ + decimal(v as nat) + ")"@,
            Constraint::Percentage(v) => "Percentage("@ + decimal(v as nat) + ")"@,
            Constraint::Ratio(n, d) => "Ratio("@ + decimal(n as nat) + ","@ + decimal(d as nat)
                + ")"@,
            Constraint::Fill(v) => "Fill("@ + decimal(v as nat) + ")"@,
        }
    }

    /// The textual form of the constraint.
    pub fn to_string(&self) -> (s: String)
        ensures
            s@ == self.spec_display(),
    {
        let (name, a) = match *self {
            Constraint::Min(v) => ("Min(", v as u64),
            Constraint::Max(v) => ("Max(", v as u64),
            Constraint::Length(v) => ("Length(", v as u64),
            Constraint::Percentage(v) => ("Percentage(", v as u64),
            Constraint::Ratio(n, _) => ("Ratio(", n as u64),
            Constraint::Fill(v) => ("Fill(", v as u64),
        };
        let mut s = owned(name);
        push_decimal(&mut s, a);
        if let Constraint::Ratio(_, d) = *self {
            push_str(&mut s, ",");
            push_decimal(&mut s, d as u64);
        }
        push_str(&mut s, ")");
        s
    }
}

/// The direction in which a layout splits its area.
#[derive(Debug, Default, Clone, Copy, Eq, PartialEq, Hash, Structural)]
pub enum Direction {
    Horizontal,
    #[default]
    Vertical,
}

impl Direction {
    /// The name of the direction.
    pub open spec fn spec_display(self) -> Seq<char> {
        match self {
            Direction::Horizontal => "Horizontal"@,
            Direction::Vertical => "Vertical"@,
        }
    }

    /// The name of the direction.
    pub fn to_string(&self) -> (s: String)
        ensures
            s@ == self.spec_display(),
    {
        match self {
            Direction::Horizontal => owned("Horizontal"),
            Direction::Vertical => owned("Vertical"),
        }
    }
}

/// A section of a layout: a named area split among its children, each with the constraint
/// on its share of the area.
#[derive(Debug)]
pub struct Section {
    pub name: String,
    pub direction: Direction,
    pub margin: u16,
    pub children: Vec<(Constraint, Section)>,
}

/// The model of a section: its name, direction, margin and children.
pub struct SectionView {
    pub name: Seq<char>,
    pub direction: Direction,
    pub margin: u16,
    pub children: Seq<(Constraint, SectionView)>,
}

/// The models of a list of children.
pub open spec fn children_view(cs: Seq<(Constraint, Section)>) -> Seq<(Constraint, SectionView)>
    decreases cs,
{
    if cs.len() == 0 {
        Seq::empty()
    } else {
        let last = cs.last();
        children_view(cs.drop_last()).push(
            (
                last.0,
                SectionView {
                    name: last.1.name@,
                    direction: last.1.direction,
                    margin: last.1.margin,
                    children: children_view(last.1.children@),
                },
            ),
        )
    }
}

/// The model of a section.
pub open spec fn section_view(s: Section) -> SectionView {
    SectionView {
        name: s.name@,
        direction: s.direction,
        margin: s.margin,
        children: children_view(s.children@),
    }
}

impl View for Section {
    type V = SectionView;

    open spec fn view(&self) -> SectionView {
        section_view(*self)
    }
}

/// The models of children are the children's models, one for one.
pub proof fn lemma_children_view(cs: Seq<(Constraint, Section)>)
    ensures
        children_view(cs).len() == cs.len(),
        forall|i: int|
            0 <= i < cs.len() ==> #[trigger] children_view(cs)[i] == (cs[i].0, section_view(cs[i].1)),
    decreases cs.len(),
{
    if cs.len() > 0 {
        lemma_children_view(cs.drop_last());
        assert forall|i: int| 0 <= i < cs.len() implies #[trigger] children_view(cs)[i] == (
            cs[i].0,
            section_view(cs[i].1),
        ) by {
            if i < cs.len() - 1 {
                assert(cs.drop_last()[i] == cs[i]);
            }
        }
    }
}

/// The index of the first child named `name`.
pub open spec fn first_named(cs: Seq<(Constraint, SectionView)>, name: Seq<char>) -> Option<int>
    decreases cs.len(),
{
    if cs.len() == 0 {
        None
    } else if cs[0].1.name == name {
        Some(0)
    } else {
        match first_named(cs.drop_first(), name) {
            Some(i) => Some(i + 1),
            None => None,
        }
    }
}

/// The child found under the name among the given children and their descendants: for each
/// child in turn, the child itself if it has the name, or else what is found below it; a
/// later find replaces an earlier one.
pub open spec fn found_among(cs: Seq<(Constraint, SectionView)>, name: Seq<char>) -> Option<
    (Constraint, SectionView),
>
    decreases cs,
{
    if cs.len() == 0 {
        None
    } else {
        let prev = found_among(cs.drop_last(), name);
        let last = cs.last();
        let here = if last.1.name == name {
            Some(last)
        } else {
            found_among(last.1.children, name)
        };
        match here {
            Some(x) => Some(x),
            None => prev,
        }
    }
}

/// The parent of the section named `name` among the given children and their descendants:
/// for each child in turn, the child itself if one of its children has the name, or else
/// what is found below it; the first find counts.
pub open spec fn parent_among(cs: Seq<(Constraint, SectionView)>, name: Seq<char>) -> Option<
    SectionView,
>
    decreases cs,
{
    if cs.len() == 0 {
        None
    } else {
        let first = cs[0].1;
        let here = if first_named(first.children, name) is Some {
            Some(first)
        } else {
            parent_among(first.children, name)
        };
        match here {
            Some(p) => Some(p),
            None => parent_among(cs.drop_first(), name),
        }
    }
}

/// The children after giving the section named `name` the constraint `c`: the first direct
/// child with the name, or else, in the first child whose descendants have it, the same
/// change below that child; nothing when no descendant has the name.
pub open spec fn constrained_among(
    cs: Seq<(Constraint, SectionView)>,
    name: Seq<char>,
    c: Constraint,
) -> Option<Seq<(Constraint, SectionView)>>
    decreases cs, 1int,
{
    match first_named(cs, name) {
        Some(i) => Some(cs.update(i, (c, cs[i].1))),
        None => constrained_below(cs, name, c),
    }
}

/// The children after giving the section named `name` the constraint `c` below the first
/// child whose descendants have it.
pub open spec fn constrained_below(
    cs: Seq<(Constraint, SectionView)>,
    name: Seq<char>,
    c: Constraint,
) -> Option<Seq<(Constraint, SectionView)>>
    decreases cs, 0int,
{
    if cs.len() == 0 {
        None
    } else {
        let first = cs[0];
        match constrained_among(first.1.children, name, c) {
            Some(ncs) => Some(cs.update(0, (first.0, SectionView { children: ncs, ..first.1 }))),
            None => match constrained_below(cs.drop_first(), name, c) {
                Some(rest) => Some(seq![first] + rest),
                None => None,
            },
        }
    }
}

/// Why a layout operation failed.
#[derive(Debug, Clone, PartialEq, Eq)]
pub enum LayoutError {
    /// No section has the name.
    UnknownSection(String),
    /// Two sections have the name.
    DuplicateSection(String),
}

impl LayoutError {
    /// The error's message.
    pub fn to_string(&self) -> (s: String)
        ensures
            s@ == match self {
                LayoutError::UnknownSection(n) => "unknown layout section name: "@ + n@,
                LayoutError::DuplicateSection(n) => "duplicate layout section name: "@ + n@,
            },
    {
        match self {
            LayoutError::UnknownSection(n) => {
                let mut s = owned("unknown layout section name: ");
                push_str(&mut s, n.as_str());
                s
            },
            LayoutError::DuplicateSection(n) => {
                let mut s = owned("duplicate layout section name: ");
                push_str(&mut s, n.as_str());
                s
            },
        }
    }
}

/// The position of the first child named `name`.
fn first_named_index(cs: &Vec<(Constraint, Section)>, name: &str) -> (r: Option<usize>)
    ensures
        match r {
            Some(i) => first_named(children_view(cs@), name@) == Some(i as int),
            None => first_named(children_view(cs@), name@) is None,
        },
{
    let ghost cv = children_view(cs@);
    proof {
        lemma_children_view(cs@);
        assert(cv.skip(0) =~= cv);
    }
    let mut i: usize = 0;
    while i < cs.len()
        invariant
            i <= cs@.len(),
            cv == children_view(cs@),
            cv.len() == cs@.len(),
            forall|j: int| 0 <= j < cs@.len() ==> #[trigger] cv[j] == (cs@[j].0, section_view(cs@[j].1)),
            first_named(cv, name@) == match first_named(cv.skip(i as int), name@) {
                Some(k) => Some(k + i),
                None => None::<int>,
            },
        decreases cs@.len() - i,
    {
        proof {
            assert(cv.skip(i as int)[0] == cv[i as int]);
            assert(cv.skip(i as int).drop_first() =~= cv.skip(i + 1));
        }
        let v = crate::text::chars_of(cs[i].1.name.as_str());
        if crate::text::eq_lit(&v, name) {
            return Some(i);
        }
        i += 1;
    }
    None
}

/// The child found under the name among the children and their descendants (see
/// [`found_among`]).
fn find_among<'a>(cs: &'a Vec<(Constraint, Section)>, name: &str) -> (r: Option<&'a (Constraint, Section)>)
    ensures
        match found_among(children_view(cs@), name@) {
            Some(x) => r matches Some(y) && (y.0, section_view(y.1)) == x,
            None => r is None,
        },
    decreases cs@,
{
    let mut found: Option<&(Constraint, Section)> = None;
    let mut i: usize = 0;
    proof {
        assert(cs@.take(0) =~= Seq::<(Constraint, Section)>::empty());
    }
    while i < cs.len()
        invariant
            i <= cs@.len(),
            match found_among(children_view(cs@.take(i as int)), name@) {
                Some(x) => found matches Some(y) && (y.0, section_view(y.1)) == x,
                None => found is None,
            },
        decreases cs@.len() - i,
    {
        let child = &cs[i];
        proof {
            let t = cs@.take(i + 1);
            assert(t.drop_last() =~= cs@.take(i as int));
            assert(t.last() == cs@[i as int]);
            assert(children_view(t).drop_last() =~= children_view(cs@.take(i as int)));
            assert(decreases_to!(cs@ => cs@[i as int].1.children@));
        }
        let v = crate::text::chars_of(child.1.name.as_str());
        if crate::text::eq_lit(&v, name) {
            found = Some(child);
        } else {
            match find_among(&child.1.children, name) {
                Some(y) => {
                    found = Some(y);
                },
                None => {},
            }
        }
        i += 1;
    }
    proof {
        assert(cs@.take(i as int) =~= cs@);
    }
    found
}

/// The parent of the section named `name` among the children and their descendants (see
/// [`parent_among`]).
fn parent_in<'a>(cs: &'a Vec<(Constraint, Section)>, name: &str) -> (r: Option<&'a Section>)
    ensures
        match parent_among(children_view(cs@), name@) {
            Some(p) => r matches Some(s) && section_view(*s) == p,
            None => r is None,
        },
    decreases cs@,
{
    let ghost cv = children_view(cs@);
    proof {
        lemma_children_view(cs@);
        assert(cv.skip(0) =~= cv);
    }
    let mut i: usize = 0;
    while i < cs.len()
        invariant
            i <= cs@.len(),
            cv == children_view(cs@),
            cv.len() == cs@.len(),
            forall|j: int| 0 <= j < cs@.len() ==> #[trigger] cv[j] == (cs@[j].0, section_view(cs@[j].1)),
            parent_among(cv, name@) == parent_among(cv.skip(i as int), name@),
        decreases cs@.len() - i,
    {
        let child = &cs[i].1;
        proof {
            assert(cv.skip(i as int)[0] == cv[i as int]);
            assert(cv.skip(i as int).drop_first() =~= cv.skip(i + 1));
            assert(decreases_to!(cs@ => cs@[i as int].1.children@));
        }
        if first_named_index(&child.children, name).is_some() {
            return Some(child);
        }
        match parent_in(&child.children, name) {
            Some(p) => {
                return Some(p);
            },
            None => {},
        }
        i += 1;
    }
    None
}

/// The first child with a name has it.
proof fn lemma_first_named(cs: Seq<(Constraint, SectionView)>, name: Seq<char>)
    ensures
        first_named(cs, name) matches Some(i) ==> 0 <= i < cs.len() && cs[i].1.name == name,
    decreases cs.len(),
{
    if cs.len() > 0 && cs[0].1.name != name {
        lemma_first_named(cs.drop_first(), name);
    }
}

/// Give the section named `name` among the children and their descendants the constraint
/// `c` (see [`constrained_among`]); whether it was found.
fn constrain_among(cs: &mut Vec<(Constraint, Section)>, name: &str, c: Constraint) -> (r: bool)
    ensures
        match constrained_among(children_view(old(cs)@), name@, c) {
            Some(ncs) => r && children_view(final(cs)@) == ncs,
            None => !r && children_view(final(cs)@) == children_view(old(cs)@),
        },
    decreases children_view(old(cs)@),
{
    let ghost cv = children_view(cs@);
    proof {
        lemma_children_view(cs@);
        lemma_first_named(cv, name@);
    }
    match first_named_index(cs, name) {
        Some(i) => {
            proof {
                let k = first_named(cv, name@).unwrap();
                assert(0 <= k < cv.len());
                assert(k == i as int);
            }
            cs[i].0 = c;
            proof {
                lemma_children_view(cs@);
                assert(children_view(cs@) =~= cv.update(i as int, (c, cv[i as int].1)));
            }
            return true;
        },
        None => {},
    }
    let mut i: usize = 0;
    proof {
        assert(cv.skip(0) =~= cv);
        assert(cv.take(0) =~= Seq::<(Constraint, SectionView)>::empty());
    }
    while i < cs.len()
        invariant
            i <= cs@.len(),
            cv == children_view(old(cs)@),
            cv == children_view(cs@),
            cv.len() == cs@.len(),
            forall|j: int| 0 <= j < cs@.len() ==> #[trigger] cv[j] == (cs@[j].0, section_view(cs@[j].1)),
            first_named(cv, name@) is None,
            constrained_among(cv, name@, c) == match constrained_below(cv.skip(i as int), name@, c) {
                Some(rest) => Some(cv.take(i as int) + rest),
                None => None::<Seq<(Constraint, SectionView)>>,
            },
        decreases cs@.len() - i,
    {
        let ghost first = cv[i as int];
        proof {
            assert(cv.skip(i as int)[0] == first);
            assert(cv.skip(i as int).drop_first() =~= cv.skip(i + 1));
            assert(first.1.children == children_view(cs@[i as int].1.children@));
            assert(decreases_to!(cv => cv[i as int].1.children));
            assert(cv.take(i as int) + seq![first] =~= cv.take(i + 1));
        }
        let ghost before = cs@;
        let found = constrain_among(&mut cs[i].1.children, name, c);
        proof {
            lemma_children_view(cs@);
        }
        if found {
            proof {
                let s = cs@[i as int].1;
                let ncs = constrained_among(children_view(before[i as int].1.children@), name@, c).unwrap();
                assert(section_view(s) == SectionView { children: ncs, ..first.1 });
                assert(children_view(cs@) =~= cv.take(i as int) + cv.skip(i as int).update(0, (first.0, SectionView { children: ncs, ..first.1 })));
            }
            return true;
        }
        proof {
            assert(section_view(cs@[i as int].1) == section_view(before[i as int].1));
            assert(children_view(cs@) =~= cv);
        }
        i += 1;
    }
    proof {
        assert(cv.skip(i as int) =~= Seq::<(Constraint, SectionView)>::empty());
    }
    false
}

impl Section {
    /// A section with no children, split vertically, without margin.
    pub fn new(name: String) -> (s: Section)
        ensures
            s@ == (SectionView {
                name: name@,
                direction: Direction::Vertical,
                margin: 0,
                children: Seq::empty(),
            }),
    {
        let s = Section { name, direction: Direction::Vertical, margin: 0, children: Vec::new() };
        proof {
            assert(children_view(s.children@) =~= Seq::<(Constraint, SectionView)>::empty());
        }
        s
    }

    /// Insert a child at a position; a position past the end appends it.
    pub fn insert_child(&mut self, position: usize, constraint: Constraint, section: Section)
        ensures
            final(self)@ == (SectionView {
                children: old(self)@.children.insert(
                    if position <= old(self)@.children.len() {
                        position as int
                    } else {
                        old(self)@.children.len() as int
                    },
                    (constraint, section@),
                ),
                ..old(self)@
            }),
    {
        let ghost before = self.children@;
        let ghost sv = section@;
        let at = if position <= self.children.len() {
            position
        } else {
            self.children.len()
        };
        self.children.insert(at, (constraint, section));
        proof {
            lemma_children_view(before);
            lemma_children_view(self.children@);
            assert(children_view(self.children@) =~= children_view(before).insert(at as int, (constraint, sv)));
        }
    }

    /// Append a child.
    pub fn append_child(&mut self, constraint: Constraint, section: Section)
        ensures
            final(self)@ == (SectionView {
                children: old(self)@.children.push((constraint, section@)),
                ..old(self)@
            }),
    {
        let ghost before = self.children@;
        self.children.push((constraint, section));
        proof {
            assert(self.children@.drop_last() =~= before);
        }
    }

    /// Append a child (see [`Section::append_child`]).
    pub fn add_child(&mut self, constraint: Constraint, section: Section)
        ensures
            final(self)@ == (SectionView {
                children: old(self)@.children.push((constraint, section@)),
                ..old(self)@
            }),
    {
        self.append_child(constraint, section)
    }

    /// The section with the given name: this one, or else the one found below it (see
    /// [`found_among`]).
    pub fn get_section(&self, name: &str) -> (r: Option<&Section>)
        ensures
            if self@.name == name@ {
                r == Some(self)
            } else {
                match found_among(self@.children, name@) {
                    Some(x) => r matches Some(s) && s@ == x.1,
                    None => r is None,
                }
            },
    {
        let v = crate::text::chars_of(self.name.as_str());
        if crate::text::eq_lit(&v, name) {
            return Some(self);
        }
        match find_among(&self.children, name) {
            Some(x) => Some(&x.1),
            None => None,
        }
    }

    /// The constraint of the section with the given name below this one (see
    /// [`found_among`]).
    pub fn get_constraint(&self, name: &str) -> (r: Option<Constraint>)
        ensures
            r == match found_among(self@.children, name@) {
                Some(x) => Some(x.0),
                None => None::<Constraint>,
            },
    {
        match find_among(&self.children, name) {
            Some(x) => Some(x.0),
            None => None,
        }
    }

    /// The parent of the section with the given name: this one, if one of its children has
    /// the name, or else the one found below it (see [`parent_among`]).
    pub fn get_parent(&self, name: &str) -> (r: Option<&Section>)
        ensures
            if first_named(self@.children, name@) is Some {
                r == Some(self)
            } else {
                match parent_among(self@.children, name@) {
                    Some(p) => r matches Some(s) && s@ == p,
                    None => r is None,
                }
            },
    {
        if first_named_index(&self.children, name).is_some() {
            return Some(self);
        }
        parent_in(&self.children, name)
    }

    /// Give the section with the given name below this one the constraint `c` (see
    /// [`constrained_among`]); whether it was found.
    fn modify_section_by_name(&mut self, name: &str, c: Constraint) -> (r: bool)
        ensures
            match constrained_among(old(self)@.children, name@, c) {
                Some(ncs) => r && final(self)@ == (SectionView { children: ncs, ..old(self)@ }),
                None => !r && final(self)@ == old(self)@,
            },
    {
        constrain_among(&mut self.children, name, c)
    }

    /// Give the section with the given name below this one the constraint `c` (see
    /// [`constrained_among`]); [`LayoutError::UnknownSection`] if there is none.
    pub fn set_constraint(&mut self, name: &str, c: Constraint) -> (r: Result<(), LayoutError>)
        ensures
            match constrained_among(old(self)@.children, name@, c) {
                Some(ncs) => r is Ok && final(self)@ == (SectionView { children: ncs, ..old(self)@ }),
                None => (r matches Err(LayoutError::UnknownSection(n)) && n@ == name@)
                    && final(self)@ == old(self)@,
            },
    {
        if !self.modify_section_by_name(name, c) {
            return Err(LayoutError::UnknownSection(owned(name)));
        }
        Ok(())
    }
}

/// The lines drawing the children and their descendants as a tree, each child's line
/// indented by `indent`: `├─ <constraint> - <name>`, then its own children indented by two
/// more spaces.
pub open spec fn tree_lines(cs: Seq<(Constraint, SectionView)>, indent: Seq<char>) -> Seq<char>
    decreases cs,
{
    if cs.len() == 0 {
        Seq::empty()
    } else {
        let last = cs.last();
        tree_lines(cs.drop_last(), indent) + indent + "├─ "@ + last.0.spec_display() + " - "@
            + last.1.name + "\n"@ + tree_lines(last.1.children, indent + "  "@)
    }
}

/// Draw the children and their descendants as a tree (see [`tree_lines`]), after `out`.
fn push_tree_lines(cs: &Vec<(Constraint, Section)>, indent: &str, out: &mut String)
    ensures
        final(out)@ == old(out)@ + tree_lines(children_view(cs@), indent@),
    decreases cs@,
{
    let ghost start = out@;
    let mut deeper = owned(indent);
    push_str(&mut deeper, "  ");
    let mut i: usize = 0;
    proof {
        assert(cs@.take(0) =~= Seq::<(Constraint, Section)>::empty());
        assert(out@ =~= start + tree_lines(children_view(cs@.take(0)), indent@));
    }
    while i < cs.len()
        invariant
            i <= cs@.len(),
            deeper@ == indent@ + "  "@,
            out@ == start + tree_lines(children_view(cs@.take(i as int)), indent@),
        decreases cs@.len() - i,
    {
        let child = &cs[i];
        proof {
            let t = cs@.take(i + 1);
            assert(t.drop_last() =~= cs@.take(i as int));
            assert(t.last() == cs@[i as int]);
            assert(decreases_to!(cs@ => cs@[i as int].1.children@));
        }
        push_str(&mut *out, indent);
        push_str(&mut *out, "├─ ");
        let c = child.0.to_string();
        push_str(&mut *out, c.as_str());
        push_str(&mut *out, " - ");
        push_str(&mut *out, child.1.name.as_str());
        push_str(&mut *out, "\n");
        push_tree_lines(&child.1.children, deeper.as_str(), out);
        i += 1;
        proof {
            let t = cs@.take(i as int);
            let last = t.last();
            assert(children_view(t).drop_last() =~= children_view(cs@.take(i - 1)));
            assert(out@ =~= start + tree_lines(children_view(t), indent@));
        }
    }
    proof {
        assert(cs@.take(i as int) =~= cs@);
    }
}

/// The sections below the given children, in the order a depth-first walk meets them: each
/// child, then its descendants; each with its constraint.
pub open spec fn descendants(cs: Seq<(Constraint, SectionView)>) -> Seq<(Constraint, SectionView)>
    decreases cs,
{
    if cs.len() == 0 {
        Seq::empty()
    } else {
        descendants(cs.drop_last()) + seq![cs.last()] + descendants(cs.last().1.children)
    }
}

/// The names of the given sections, each with its constraint.
pub open spec fn named_constraints(ds: Seq<(Constraint, SectionView)>) -> Seq<(Seq<char>, Constraint)> {
    ds.map_values(|d: (Constraint, SectionView)| (d.1.name, d.0))
}

/// An earlier section has the name of the section at position `j`.
pub open spec fn repeats_at(names: Seq<(Seq<char>, Constraint)>, j: int) -> bool {
    0 <= j < names.len() && exists|k: int| 0 <= k < j && names[k].0 == names[j].0
}

/// The position of the first section whose name an earlier one has.
pub open spec fn first_repeat(names: Seq<(Seq<char>, Constraint)>) -> Option<int> {
    if exists|j: int| #[trigger] repeats_at(names, j) {
        Some(
            choose|j: int|
                #[trigger] repeats_at(names, j) && forall|m: int| 0 <= m < j ==> !repeats_at(names, m),
        )
    } else {
        None
    }
}

/// Append the names and constraints of the sections below the children (see
/// [`descendants`]) to `out`.
fn collect_descendants(cs: &Vec<(Constraint, Section)>, out: &mut Vec<(String, Constraint)>)
    ensures
        final(out)@.len() == old(out)@.len() + descendants(children_view(cs@)).len(),
        forall|i: int| 0 <= i < old(out)@.len() ==> #[trigger] final(out)@[i] == old(out)@[i],
        forall|i: int|
            0 <= i < descendants(children_view(cs@)).len() ==> (
            #[trigger] final(out)@[old(out)@.len() + i]).0@ == named_constraints(
                descendants(children_view(cs@)),
            )[i].0 && final(out)@[old(out)@.len() + i].1 == named_constraints(
                descendants(children_view(cs@)),
            )[i].1,
    decreases cs@,
{
    let ghost start = out@;
    let mut i: usize = 0;
    proof {
        assert(cs@.take(0) =~= Seq::<(Constraint, Section)>::empty());
    }
    while i < cs.len()
        invariant
            i <= cs@.len(),
            out@.len() == start.len() + descendants(children_view(cs@.take(i as int))).len(),
            forall|k: int| 0 <= k < start.len() ==> #[trigger] out@[k] == start[k],
            forall|k: int|
                0 <= k < descendants(children_view(cs@.take(i as int))).len() ==> (
                #[trigger] out@[start.len() + k]).0@ == named_constraints(
                    descendants(children_view(cs@.take(i as int))),
                )[k].0 && out@[start.len() + k].1 == named_constraints(
                    descendants(children_view(cs@.take(i as int))),
                )[k].1,
        decreases cs@.len() - i,
    {
        let child = &cs[i];
        let ghost d0 = descendants(children_view(cs@.take(i as int)));
        let ghost mid = out@;
        proof {
            let t = cs@.take(i + 1);
            assert(t.drop_last() =~= cs@.take(i as int));
            assert(t.last() == cs@[i as int]);
            assert(children_view(t).drop_last() =~= children_view(cs@.take(i as int)));
            assert(decreases_to!(cs@ => cs@[i as int].1.children@));
        }
        out.push((child.1.name.clone(), child.0));
        let ghost mid2 = out@;
        collect_descendants(&child.1.children, out);
        i += 1;
        proof {
            let t = cs@.take(i as int);
            let d1 = descendants(children_view(t));
            let pair = (child.0, section_view(child.1));
            let below = descendants(children_view(child.1.children@));
            assert(children_view(t).last() == pair);
            assert(d1 =~= d0 + seq![pair] + below);
            assert forall|k: int| 0 <= k < d1.len() implies (#[trigger] out@[start.len() + k]).0@
                == named_constraints(d1)[k].0 && out@[start.len() + k].1 == named_constraints(
                d1,
            )[k].1 by {
                if k < d0.len() {
                    assert(out@[start.len() + k] == mid[start.len() + k]);
                    assert(d1[k] == d0[k]);
                } else if k == d0.len() {
                    assert(out@[start.len() + k] == mid2[start.len() + k]);
                    assert(d1[k] == pair);
                } else {
                    assert(d1[k] == below[k - d0.len() - 1]);
                    assert(out@[start.len() + k] == out@[mid2.len() + (k - d0.len() - 1)]);
                }
            }
        }
    }
    proof {
        assert(cs@.take(i as int) =~= cs@);
    }
}

impl Section {
    /// The tree of the section: `<name>:` on the first line, then its descendants (see
    /// [`tree_lines`]).
    pub fn to_string(&self) -> (s: String)
        ensures
            s@ == self@.name + ":\n"@ + tree_lines(self@.children, ""@),
    {
        let mut s = owned(self.name.as_str());
        push_str(&mut s, ":\n");
        push_tree_lines(&self.children, "", &mut s);
        s
    }

    /// Every section below this one by name, with its constraint, in the order a depth-first
    /// walk meets them (see [`descendants`]); [`LayoutError::DuplicateSection`] with the first
    /// name met twice.
    pub fn all_layouts(&self) -> (r: Result<Vec<(String, Constraint)>, LayoutError>)
        ensures
            ({
                let names = named_constraints(descendants(self@.children));
                match first_repeat(names) {
                    None => r matches Ok(v) && v@.len() == names.len() && forall|i: int|
                        0 <= i < names.len() ==> (#[trigger] v@[i]).0@ == names[i].0 && v@[i].1
                            == names[i].1,
                    Some(j) => r matches Err(LayoutError::DuplicateSection(n)) && n@ == names[j].0,
                }
            }),
    {
        let mut v: Vec<(String, Constraint)> = Vec::new();
        collect_descendants(&self.children, &mut v);
        let ghost names = named_constraints(descendants(self@.children));
        proof {
            assert forall|i: int| 0 <= i < names.len() implies (#[trigger] v@[i]).0@ == names[i].0
                && v@[i].1 == names[i].1 by {
                let w = v@[0 + i];
            }
        }
        let mut j: usize = 0;
        while j < v.len()
            invariant
                j <= v@.len(),
                names == named_constraints(descendants(self@.children)),
                v@.len() == names.len(),
                forall|i: int| 0 <= i < names.len() ==> (#[trigger] v@[i]).0@ == names[i].0 && v@[i].1 == names[i].1,
                forall|m: int, k: int| 0 <= k < m < j ==> names[k].0 != names[m].0,
            decreases v@.len() - j,
        {
            let mut k: usize = 0;
            while k < j
                invariant
                    k <= j < v@.len(),
                    names == named_constraints(descendants(self@.children)),
                    v@.len() == names.len(),
                    forall|i: int| 0 <= i < names.len() ==> (#[trigger] v@[i]).0@ == names[i].0,
                    forall|m: int| 0 <= m < k ==> names[m].0 != names[j as int].0,
                    forall|m: int, kk: int| 0 <= kk < m < j ==> names[kk].0 != names[m].0,
                decreases j - k,
            {
                let a = crate::text::chars_of(v[k].0.as_str());
                let b = crate::text::chars_of(v[j].0.as_str());
                if crate::text::eq_chars(&a, &b) {
                    proof {
                        let jj = j as int;
                        assert(names[k as int].0 == names[jj].0);
                        assert(repeats_at(names, jj));
                        assert forall|m: int| 0 <= m < jj implies !repeats_at(names, m) by {
                            if repeats_at(names, m) {
                                let y = choose|y: int| 0 <= y < m && names[y].0 == names[m].0;
                            }
                        }
                        let c = first_repeat(names).unwrap();
                        assert(repeats_at(names, c) && forall|m: int| 0 <= m < c ==> !repeats_at(names, m));
                        assert(c == jj) by {
                            if c < jj {
                                assert(!repeats_at(names, c));
                            } else if c > jj {
                                assert(!repeats_at(names, jj));
                            }
                        }
                    }
                    let n = v[j].0.clone();
                    return Err(LayoutError::DuplicateSection(n));
                }
                k += 1;
            }
            j += 1;
        }
        proof {
            assert forall|x: int| !(#[trigger] repeats_at(names, x)) by {
                if repeats_at(names, x) {
                    let y = choose|y: int| 0 <= y < x && names[y].0 == names[x].0;
                }
            }
        }
        Ok(v)
    }
}

} // verus!
