//! The entries of the compendium as the index sees them: which collection
//! each belongs to, under which identifier it is found, and which of its
//! texts are indexed.

use vstd::prelude::*;
use vstd::string::*;
use crate::index::{tuple_views, TupleView};
use crate::text::{lemma_split_concat, lemma_split_plain, split, split_line, views};

verus! {

/// The kinds of entries.
#[derive(Clone, Copy, Debug, PartialEq, Eq, Structural)]
pub enum Kind {
    Spell,
    Class,
    Monster,
    Condition,
    MagicSchool,
    Equipment,
    Feature,
}

/// The collection that holds entries of every kind side by side.
pub open spec fn all_collection() -> Seq<char> {
    "all"@
}

impl Kind {
    /// The collection that holds the entries of this kind.
    pub open spec fn collection_name(self) -> Seq<char> {
        match self {
            Kind::Spell => "spells"@,
            Kind::Class => "classes"@,
            Kind::Monster => "monsters"@,
            Kind::Condition => "conditions"@,
            Kind::MagicSchool => "magic-schools"@,
            Kind::Equipment => "equipment"@,
            Kind::Feature => "features"@,
        }
    }

    /// The collection that holds the entries of this kind.
    pub fn collection(&self) -> (name: &'static str)
        ensures
            name@ == self.collection_name(),
    {
        match self {
            Kind::Spell => "spells",
            Kind::Class => "classes",
            Kind::Monster => "monsters",
            Kind::Condition => "conditions",
            Kind::MagicSchool => "magic-schools",
            Kind::Equipment => "equipment",
            Kind::Feature => "features",
        }
    }
}

/// One entry of the compendium.
#[derive(Debug)]
pub struct Model {
    pub kind: Kind,
    /// The identifier of the entry within its collection.
    pub id: String,
    pub name: String,
    /// The texts that describe the entry: the paragraphs of a spell, a
    /// condition or a feature, the one description of a school of magic, the
    /// kind of damage and the properties of a piece of equipment.
    pub desc: Vec<String>,
}

/// The tuple for one text of an entry.
pub open spec fn tuple_of(
    collection: Seq<char>,
    field: Seq<char>,
    id: Seq<char>,
    text: Seq<char>,
) -> TupleView {
    (collection, field, id, text)
}

/// The tuples of an entry within its own collection: its name, and then
/// what its kind adds to the name. Of a class only the name is indexed, and
/// of a monster the name, once as its name and once as its type; of every
/// other entry the texts that describe it follow the name.
pub open spec fn tuples_of(kind: Kind, id: Seq<char>, name: Seq<char>, desc: Seq<Seq<char>>)
    -> Seq<TupleView> {
    let collection = kind.collection_name();
    let first = seq![tuple_of(collection, "name"@, id, name)];
    if kind == Kind::Monster {
        first.push(tuple_of(collection, "type"@, id, name))
    } else if kind == Kind::Class {
        first
    } else {
        first + desc.map_values(|d: Seq<char>| tuple_of(collection, "desc"@, id, d))
    }
}

/// The identifier of an entry in the collection of all entries: its own
/// collection, a colon, and its identifier there.
pub open spec fn aggregate_id(kind: Kind, id: Seq<char>) -> Seq<char> {
    kind.collection_name() + seq![':'] + id
}

/// The tuples of an entry in the collection of all entries: those of its
/// own collection, each moved to the collection of all and given the
/// entry's identifier there.
pub open spec fn aggregate_tuples_of(
    kind: Kind,
    id: Seq<char>,
    name: Seq<char>,
    desc: Seq<Seq<char>>,
) -> Seq<TupleView> {
    tuples_of(kind, id, name, desc).map_values(
        |t: TupleView| tuple_of(all_collection(), t.1, aggregate_id(kind, id), t.3),
    )
}

impl Model {
    /// The identifier of the entry in the collection of all entries.
    pub fn id(&self) -> (id: String)
        ensures
            id@ == aggregate_id(self.kind, self.id@),
    {
        let mut id = String::from_str(self.kind.collection());
        id.push(':');
        id.append(self.id.as_str());
        assert(id@ =~= aggregate_id(self.kind, self.id@));
        id
    }

    /// The tuples of the entry within its own collection.
    pub fn own_tuples(&self) -> (tuples: Vec<(String, String, String, String)>)
        ensures
            tuple_views(tuples@) == tuples_of(self.kind, self.id@, self.name@, views(self.desc@)),
    {
        let collection = self.kind.collection();
        let mut tuples: Vec<(String, String, String, String)> = Vec::new();
        tuples.push(
            (
                String::from_str(collection),
                String::from_str("name"),
                self.id.clone(),
                self.name.clone(),
            ),
        );
        let ghost first = seq![
            tuple_of(self.kind.collection_name(), "name"@, self.id@, self.name@),
        ];
        assert(tuple_views(tuples@) =~= first);
        match self.kind {
            Kind::Monster => {
                tuples.push(
                    (
                        String::from_str(collection),
                        String::from_str("type"),
                        self.id.clone(),
                        self.name.clone(),
                    ),
                );
                assert(tuple_views(tuples@) =~= first.push(
                    tuple_of(self.kind.collection_name(), "type"@, self.id@, self.name@),
                ));
            },
            Kind::Class => {},
            _ => {
                let ghost coll = self.kind.collection_name();
                let ghost id = self.id@;
                let ghost texts = views(self.desc@);
                let mut i: usize = 0;
                while i < self.desc.len()
                    invariant
                        i <= self.desc.len(),
                        coll == collection@,
                        id == self.id@,
                        texts == views(self.desc@),
                        tuple_views(tuples@) == first + texts.take(i as int).map_values(
                            |d: Seq<char>| tuple_of(coll, "desc"@, id, d),
                        ),
                    decreases self.desc.len() - i,
                {
                    let ghost before = tuple_views(tuples@);
                    tuples.push(
                        (
                            String::from_str(collection),
                            String::from_str("desc"),
                            self.id.clone(),
                            self.desc[i].clone(),
                        ),
                    );
                    proof {
                        let added = tuple_of(coll, "desc"@, id, texts[i as int]);
                        assert(tuple_views(tuples@) =~= before.push(added));
                        assert(texts.take(i as int + 1) =~= texts.take(i as int).push(
                            texts[i as int],
                        ));
                        assert(texts.take(i as int + 1).map_values(
                            |d: Seq<char>| tuple_of(coll, "desc"@, id, d),
                        ) =~= texts.take(i as int).map_values(
                            |d: Seq<char>| tuple_of(coll, "desc"@, id, d),
                        ).push(added));
                    }
                    i += 1;
                }
                assert(texts.take(self.desc.len() as int) =~= texts);
            },
        }
        tuples
    }

    /// The tuples of the entry in the collection of all entries.
    pub fn tuples(&self) -> (tuples: Vec<(String, String, String, String)>)
        ensures
            tuple_views(tuples@) == aggregate_tuples_of(
                self.kind,
                self.id@,
                self.name@,
                views(self.desc@),
            ),
    {
        let own = self.own_tuples();
        let id = self.id();
        let ghost kind = self.kind;
        let ghost short = self.id@;
        let ghost source = tuple_views(own@);
        let mut tuples: Vec<(String, String, String, String)> = Vec::new();
        let mut i: usize = 0;
        assert(tuple_views(tuples@) =~= source.take(0).map_values(
            |t: TupleView| tuple_of(all_collection(), t.1, aggregate_id(kind, short), t.3),
        ));
        while i < own.len()
            invariant
                i <= own.len(),
                source == tuple_views(own@),
                id@ == aggregate_id(kind, short),
                tuple_views(tuples@) == source.take(i as int).map_values(
                    |t: TupleView| tuple_of(all_collection(), t.1, aggregate_id(kind, short), t.3),
                ),
            decreases own.len() - i,
        {
            let ghost before = tuple_views(tuples@);
            tuples.push(
                (String::from_str("all"), own[i].1.clone(), id.clone(), own[i].3.clone()),
            );
            proof {
                let t = source[i as int];
                let moved = tuple_of(all_collection(), t.1, aggregate_id(kind, short), t.3);
                assert(tuple_views(tuples@) =~= before.push(moved));
                assert(source.take(i as int + 1) =~= source.take(i as int).push(t));
                assert(source.take(i as int + 1).map_values(
                    |t: TupleView| tuple_of(all_collection(), t.1, aggregate_id(kind, short), t.3),
                ) =~= source.take(i as int).map_values(
                    |t: TupleView| tuple_of(all_collection(), t.1, aggregate_id(kind, short), t.3),
                ).push(moved));
            }
            i += 1;
        }
        assert(source.take(own.len() as int) =~= source);
        tuples
    }
}

/// The two parts of an identifier of the collection of all entries: what
/// stands before its first colon and what stands between that and the next.
/// An identifier without a colon has no parts.
pub open spec fn id_parts(id: Seq<char>) -> Option<(Seq<char>, Seq<char>)> {
    let fields = split(id, ':');
    if fields.len() >= 2 {
        Some((fields[0], fields[1]))
    } else {
        None
    }
}

/// Takes an identifier of the collection of all entries apart into the
/// collection and the identifier there.
pub fn split_id(id: &str) -> (parts: Option<(String, String)>)
    ensures
        match parts {
            Some((collection, own)) => id_parts(id@) == Some((collection@, own@)),
            None => id_parts(id@) is None,
        },
{
    let mut fields = split_line(id, ':');
    if fields.len() >= 2 {
        let collection = fields.remove(0);
        let own = fields.remove(0);
        Some((collection, own))
    } else {
        None
    }
}

/// No collection has a colon in its name.
pub proof fn lemma_collections_hold_no_colon(kind: Kind)
    ensures
        !kind.collection_name().contains(':'),
{
    reveal_strlit("spells");
    reveal_strlit("classes");
    reveal_strlit("monsters");
    reveal_strlit("conditions");
    reveal_strlit("magic-schools");
    reveal_strlit("equipment");
    reveal_strlit("features");
}

/// An identifier of the collection of all entries is taken apart into what
/// it was made of: the collection and the identifier there, provided that
/// the identifier holds no colon itself.
pub proof fn lemma_id_round_trip(kind: Kind, id: Seq<char>)
    requires
        !id.contains(':'),
    ensures
        id_parts(aggregate_id(kind, id)) == Some((kind.collection_name(), id)),
{
    let collection = kind.collection_name();
    lemma_collections_hold_no_colon(kind);
    lemma_split_plain(collection, ':');
    lemma_split_plain(id, ':');
    lemma_split_concat(collection, id, ':');
    assert(split(aggregate_id(kind, id), ':') =~= seq![collection, id]);
}

/// The position of the last of `found` that is `id`, if there is one.
pub open spec fn last_position(found: Seq<Seq<char>>, id: Seq<char>) -> Option<int>
    decreases found.len(),
{
    if found.len() == 0 {
        None
    } else if found.last() == id {
        Some(found.len() - 1)
    } else {
        last_position(found.drop_last(), id)
    }
}

/// For the first `n` of `ids`, in order, the positions in `found` of the
/// entries that they name. An identifier that names none is passed over;
/// where several entries bear one identifier, the last of them counts.
pub open spec fn positions_of(ids: Seq<Seq<char>>, found: Seq<Seq<char>>, n: int) -> Seq<int>
    decreases n,
{
    if n <= 0 {
        Seq::<int>::empty()
    } else {
        match last_position(found, ids[n - 1]) {
            Some(p) => positions_of(ids, found, n - 1).push(p),
            None => positions_of(ids, found, n - 1),
        }
    }
}

/// Puts what was found into the order of the identifiers that the index
/// returned, best match first: `found` holds the identifiers of the entries
/// found, and the result their positions in the order of `ids`.
pub fn order_by_ids(ids: &Vec<String>, found: &Vec<String>) -> (order: Vec<usize>)
    ensures
        order@.map_values(|p: usize| p as int) == positions_of(
            views(ids@),
            views(found@),
            ids@.len() as int,
        ),
        forall|k: int| 0 <= k < order@.len() ==> (#[trigger] order@[k]) < found@.len(),
{
    let mut order: Vec<usize> = Vec::new();
    let mut i: usize = 0;
    assert(order@.map_values(|p: usize| p as int) =~= Seq::<int>::empty());
    while i < ids.len()
        invariant
            i <= ids.len(),
            order@.map_values(|p: usize| p as int) == positions_of(
                views(ids@),
                views(found@),
                i as int,
            ),
            forall|k: int| 0 <= k < order@.len() ==> (#[trigger] order@[k]) < found@.len(),
        decreases ids.len() - i,
    {
        let id = ids[i].as_str();
        assert(id@ == views(ids@)[i as int]);
        let mut j: usize = found.len();
        let ghost all = views(found@);
        assert(all.take(j as int) =~= all);
        let mut at: Option<usize> = None;
        while j > 0
            invariant_except_break
                at is None,
                last_position(all, id@) == last_position(all.take(j as int), id@),
            invariant
                j <= found.len(),
                all == views(found@),
            ensures
                match at {
                    Some(p) => last_position(all, id@) == Some(p as int) && p < found.len(),
                    None => last_position(all, id@) is None,
                },
            decreases j,
        {
            proof {
                let upto = all.take(j as int);
                assert(upto.last() == found@[j - 1]@);
                assert(upto.drop_last() =~= all.take(j - 1));
            }
            if found[j - 1].as_str().eq(id) {
                at = Some(j - 1);
                break;
            }
            j -= 1;
        }
        match at {
            Some(p) => {
                let ghost before = order@.map_values(|p: usize| p as int);
                order.push(p);
                assert(order@.map_values(|p: usize| p as int) =~= before.push(p as int));
            },
            None => {},
        }
        i += 1;
    }
    order
}

/// The colours in which the names of entries are listed.
#[derive(Clone, Copy, Debug, PartialEq, Eq, Structural)]
pub enum Color {
    Default,
    Magenta,
    Blue,
    Red,
    Green,
    LightYellow,
    LightGreen,
}

impl Kind {
    /// The sign that stands before the names of entries of this kind.
    pub open spec fn sign(self) -> Seq<char> {
        match self {
            Kind::Spell => seq!['\u{1f52e}', ' '],
            Kind::Condition => seq!['\u{1f4a2}', ' '],
            Kind::Class => seq!['\u{1f464}', ' '],
            Kind::Monster => seq!['\u{1f479}', ' '],
            Kind::MagicSchool => seq![' '],
            Kind::Equipment => seq!['\u{1f3f9}', ' '],
            Kind::Feature => seq!['\u{1f4a1}', ' '],
        }
    }

    /// The colour in which the names of entries of this kind are listed.
    pub open spec fn color_of(self) -> Color {
        match self {
            Kind::Spell => Color::Magenta,
            Kind::Condition => Color::Default,
            Kind::Class => Color::Blue,
            Kind::Monster => Color::Red,
            Kind::MagicSchool => Color::Green,
            Kind::Equipment => Color::LightYellow,
            Kind::Feature => Color::LightGreen,
        }
    }

    /// The colour in which the names of entries of this kind are listed.
    pub fn color(&self) -> (color: Color)
        ensures
            color == self.color_of(),
    {
        match self {
            Kind::Spell => Color::Magenta,
            Kind::Condition => Color::Default,
            Kind::Class => Color::Blue,
            Kind::Monster => Color::Red,
            Kind::MagicSchool => Color::Green,
            Kind::Equipment => Color::LightYellow,
            Kind::Feature => Color::LightGreen,
        }
    }
}

impl Model {
    /// The name under which the entry is listed, behind the sign of its
    /// kind, and the colour of the line.
    pub fn display_name(&self) -> (shown: (String, Color))
        ensures
            shown.0@ == self.kind.sign() + self.name@,
            shown.1 == self.kind.color_of(),
    {
        let mut text = String::new();
        match self.kind {
            Kind::Spell => text.push('\u{1f52e}'),
            Kind::Condition => text.push('\u{1f4a2}'),
            Kind::Class => text.push('\u{1f464}'),
            Kind::Monster => text.push('\u{1f479}'),
            Kind::MagicSchool => {},
            Kind::Equipment => text.push('\u{1f3f9}'),
            Kind::Feature => text.push('\u{1f4a1}'),
        }
        text.push(' ');
        assert(text@ =~= self.kind.sign());
        text.append(self.name.as_str());
        (text, self.kind.color())
    }
}

} // verus!
