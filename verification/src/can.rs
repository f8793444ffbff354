//! CAN database registry: parses message definition lines of a CAN database
//! into a name-to-identifier registry, and resolves names to 29-bit extended
//! identifiers and receive filters.

use vstd::prelude::*;

use crate::text::{
    parse_u32_spec, parse_decimal_u32, split_ws, split_whitespace_fields, str_eq, strip_colons,
    strip_trailing_colons,
};
use crate::{lemma_mask_bound, EXTENDED_ID_MASK};

verus! {

/// One parsed message definition: a name bound to its raw identifier.
pub struct CanMessage {
    pub id: u32,
    pub name: String,
}

/// A message definition line begins with the literal token `BO_ `.
pub open spec fn is_definition_line(line: Seq<char>) -> bool {
    line.len() >= 4 && line[0] == 'B' && line[1] == 'O' && line[2] == '_' && line[3] == ' '
}

/// What one line of the database contributes: `Some((name, id))` exactly for
/// a definition line with at least three fields whose second field is a
/// decimal 32-bit number; the name is the third field with trailing colons
/// stripped. Every other line contributes nothing.
pub open spec fn parse_line_spec(line: Seq<char>) -> Option<(Seq<char>, u32)> {
    if is_definition_line(line) {
        let parts = split_ws(line);
        if parts.len() > 2 {
            match parse_u32_spec(parts[1]) {
                Some(id) => Some((strip_colons(parts[2]), id)),
                None => None,
            }
        } else {
            None
        }
    } else {
        None
    }
}

/// Parse one line of the database file.
pub fn parse_dbc_line(line: &str) -> (r: Option<CanMessage>)
    ensures
        match r {
            Some(m) => parse_line_spec(line@) == Some((m.name@, m.id)),
            None => parse_line_spec(line@) is None,
        },
{
    let n = line.unicode_len();
    if n < 4 || line.get_char(0) != 'B' || line.get_char(1) != 'O' || line.get_char(2) != '_'
        || line.get_char(3) != ' ' {
        return None;
    }
    let parts = split_whitespace_fields(line);
    if parts.len() <= 2 {
        return None;
    }
    proof {
        assert(parts.deep_view()[1] == parts@[1]@);
        assert(parts.deep_view()[2] == parts@[2]@);
    }
    match parse_decimal_u32(parts[1].as_str()) {
        Some(id) => {
            let name = strip_trailing_colons(parts[2].as_str());
            Some(CanMessage { id, name })
        },
        None => None,
    }
}

/// The registry that a sequence of definitions builds up: later definitions
/// of the same name win.
pub open spec fn map_of(entries: Seq<CanMessage>) -> Map<Seq<char>, u32>
    decreases entries.len(),
{
    if entries.len() == 0 {
        Map::empty()
    } else {
        map_of(entries.drop_last()).insert(entries.last().name@, entries.last().id)
    }
}

/// The registry built from the lines of a database file.
pub open spec fn registry_of(lines: Seq<Seq<char>>) -> Map<Seq<char>, u32>
    decreases lines.len(),
{
    if lines.len() == 0 {
        Map::empty()
    } else {
        match parse_line_spec(lines.last()) {
            Some(def) => registry_of(lines.drop_last()).insert(def.0, def.1),
            None => registry_of(lines.drop_last()),
        }
    }
}

/// The name-to-identifier registry of a CAN database.
pub struct CanDatabase {
    pub messages: Vec<CanMessage>,
}

impl View for CanDatabase {
    type V = Map<Seq<char>, u32>;

    open spec fn view(&self) -> Map<Seq<char>, u32> {
        map_of(self.messages@)
    }
}

/// What a single-name lookup returns: the registered identifier truncated to
/// its 29-bit extended form, or nothing for an unregistered name.
pub open spec fn id_for_spec(m: Map<Seq<char>, u32>, name: Seq<char>) -> Option<u32> {
    if m.contains_key(name) {
        Some(m[name] & EXTENDED_ID_MASK)
    } else {
        None
    }
}

/// The entry with the given name and no later entry of that name decides the
/// registry's binding.
proof fn lemma_map_of_found(entries: Seq<CanMessage>, k: int, name: Seq<char>)
    requires
        0 <= k < entries.len(),
        entries[k].name@ == name,
        forall|j: int| k < j < entries.len() ==> entries[j].name@ != name,
    ensures
        map_of(entries).contains_key(name),
        map_of(entries)[name] == entries[k].id,
    decreases entries.len(),
{
    if k == entries.len() - 1 {
    } else {
        assert(entries.drop_last()[k] == entries[k]);
        lemma_map_of_found(entries.drop_last(), k, name);
    }
}

/// A name on no entry is absent from the registry.
proof fn lemma_map_of_absent(entries: Seq<CanMessage>, name: Seq<char>)
    requires
        forall|j: int| 0 <= j < entries.len() ==> entries[j].name@ != name,
    ensures
        !map_of(entries).contains_key(name),
    decreases entries.len(),
{
    if entries.len() > 0 {
        lemma_map_of_absent(entries.drop_last(), name);
    }
}

impl CanDatabase {
    /// An empty registry.
    pub fn new() -> (r: Self)
        ensures
            r@ == Map::<Seq<char>, u32>::empty(),
    {
        CanDatabase { messages: Vec::new() }
    }

    /// Build the registry from the lines of a database file: each definition
    /// line adds one binding, later definitions of a name win, and every
    /// unrecognized or malformed line is ignored.
    pub fn load_from_lines(lines: &Vec<String>) -> (r: Self)
        ensures
            r@ == registry_of(lines.deep_view()),
    {
        let ghost lv = lines.deep_view();
        let mut db = CanDatabase::new();
        let mut i: usize = 0;
        proof {
            assert(lv.take(0) =~= Seq::<Seq<char>>::empty());
        }
        while i < lines.len()
            invariant
                lv == lines.deep_view(),
                lv.len() == lines@.len(),
                i <= lines@.len(),
                db@ == registry_of(lv.take(i as int)),
            decreases lines@.len() - i,
        {
            proof {
                assert(lv[i as int] == lines@[i as int]@);
                assert(lv.take(i + 1).drop_last() =~= lv.take(i as int));
                assert(lv.take(i + 1).last() == lv[i as int]);
            }
            let ghost prev = db.messages@;
            match parse_dbc_line(lines[i].as_str()) {
                Some(msg) => {
                    db.messages.push(msg);
                    proof {
                        assert(db.messages@.drop_last() =~= prev);
                    }
                },
                None => {},
            }
            i += 1;
        }
        proof {
            assert(lv.take(lv.len() as int) =~= lv);
        }
        db
    }

    /// Look a name up and truncate the registered identifier to its 29-bit
    /// extended form; `None` exactly for names the database does not define.
    pub fn id_for(&self, name: &str) -> (r: Option<u32>)
        ensures
            r == id_for_spec(self@, name@),
            r matches Some(id) ==> id <= EXTENDED_ID_MASK,
    {
        let n = self.messages.len();
        let mut k = n;
        while k > 0
            invariant
                n == self.messages@.len(),
                k <= n,
                forall|j: int| k <= j < n ==> self.messages@[j].name@ != name@,
            decreases k,
        {
            k -= 1;
            if str_eq(self.messages[k].name.as_str(), name) {
                let id = self.messages[k].id;
                proof {
                    lemma_map_of_found(self.messages@, k as int, name@);
                    lemma_mask_bound(id);
                }
                return Some(id & EXTENDED_ID_MASK);
            }
        }
        proof {
            lemma_map_of_absent(self.messages@, name@);
        }
        None
    }
}

/// Resolve a single name: the masked identifier, or `0` for a name the
/// database does not define.
pub fn get_can_id_from_can_name(db: &CanDatabase, can_name: String) -> (r: u32)
    ensures
        r == (match id_for_spec(db@, can_name@) {
            Some(id) => id,
            None => 0,
        }),
{
    match db.id_for(can_name.as_str()) {
        Some(id) => id,
        None => 0,
    }
}

/// The masked identifiers of the names a registry defines, in input order,
/// with undefined names dropped.
pub open spec fn resolved_ids(m: Map<Seq<char>, u32>, names: Seq<Seq<char>>) -> Seq<u32>
    decreases names.len(),
{
    if names.len() == 0 {
        Seq::empty()
    } else {
        let rest = resolved_ids(m, names.drop_last());
        match id_for_spec(m, names.last()) {
            Some(id) => rest.push(id),
            None => rest,
        }
    }
}

/// Resolve a batch of names to masked identifiers, dropping names the
/// database does not define.
pub fn get_can_ids_from_can_names(db: &CanDatabase, can_names: &[&str]) -> (r: Vec<u32>)
    ensures
        r@ == resolved_ids(db@, can_names.deep_view()),
{
    let ghost nv = can_names.deep_view();
    let mut out: Vec<u32> = Vec::new();
    let mut i: usize = 0;
    proof {
        assert(nv.take(0) =~= Seq::<Seq<char>>::empty());
    }
    while i < can_names.len()
        invariant
            nv == can_names.deep_view(),
            nv.len() == can_names@.len(),
            i <= can_names@.len(),
            out@ == resolved_ids(db@, nv.take(i as int)),
        decreases can_names@.len() - i,
    {
        proof {
            assert(nv[i as int] == can_names@[i as int]@);
            assert(nv.take(i + 1).drop_last() =~= nv.take(i as int));
            assert(nv.take(i + 1).last() == nv[i as int]);
        }
        match db.id_for(can_names[i]) {
            Some(id) => out.push(id),
            None => {},
        }
        i += 1;
    }
    proof {
        assert(nv.take(nv.len() as int) =~= nv);
    }
    out
}

/// A receive filter: a masked identifier paired with the extended-identifier
/// mask.
#[derive(Clone, Copy, Debug, PartialEq, Eq, Structural)]
pub struct FilterSpec {
    pub id: u32,
    pub mask: u32,
}

/// The filters of the names a registry defines, in input order, each with
/// the fixed extended-identifier mask; undefined names produce no filter.
pub open spec fn resolved_filters(m: Map<Seq<char>, u32>, names: Seq<Seq<char>>) -> Seq<FilterSpec>
    decreases names.len(),
{
    if names.len() == 0 {
        Seq::empty()
    } else {
        let rest = resolved_filters(m, names.drop_last());
        match id_for_spec(m, names.last()) {
            Some(id) => rest.push(FilterSpec { id, mask: EXTENDED_ID_MASK }),
            None => rest,
        }
    }
}

/// Resolve a batch of names to receive filters, dropping names the database
/// does not define.
pub fn get_can_filters_from_can_names(db: &CanDatabase, can_names: &[&str]) -> (r: Vec<
    FilterSpec,
>)
    ensures
        r@ == resolved_filters(db@, can_names.deep_view()),
{
    let ghost nv = can_names.deep_view();
    let mut out: Vec<FilterSpec> = Vec::new();
    let mut i: usize = 0;
    proof {
        assert(nv.take(0) =~= Seq::<Seq<char>>::empty());
    }
    while i < can_names.len()
        invariant
            nv == can_names.deep_view(),
            nv.len() == can_names@.len(),
            i <= can_names@.len(),
            out@ == resolved_filters(db@, nv.take(i as int)),
        decreases can_names@.len() - i,
    {
        proof {
            assert(nv[i as int] == can_names@[i as int]@);
            assert(nv.take(i + 1).drop_last() =~= nv.take(i as int));
            assert(nv.take(i + 1).last() == nv[i as int]);
        }
        match db.id_for(can_names[i]) {
            Some(id) => out.push(FilterSpec { id, mask: EXTENDED_ID_MASK }),
            None => {},
        }
        i += 1;
    }
    proof {
        assert(nv.take(nv.len() as int) =~= nv);
    }
    out
}

/// A valid definition line, loaded on its own, resolves its name to the
/// identifier truncated by the extended-identifier mask.
pub proof fn lemma_definition_line_resolves(line: Seq<char>, name: Seq<char>, id: u32)
    requires
        parse_line_spec(line) == Some((name, id)),
    ensures
        id_for_spec(registry_of(seq![line]), name) == Some(id & EXTENDED_ID_MASK),
{
    assert(seq![line].drop_last() =~= Seq::<Seq<char>>::empty());
    assert(seq![line].last() == line);
}

/// In a whole database, a valid definition line that no later line
/// overrides binds its name: the lookup returns its identifier truncated by
/// the extended-identifier mask.
pub proof fn lemma_last_definition_wins(lines: Seq<Seq<char>>, i: int, name: Seq<char>, id: u32)
    requires
        0 <= i < lines.len(),
        parse_line_spec(lines[i]) == Some((name, id)),
        forall|j: int| i < j < lines.len() ==> (match parse_line_spec(#[trigger] lines[j]) {
            Some(d) => d.0 != name,
            None => true,
        }),
    ensures
        registry_of(lines).contains_key(name),
        registry_of(lines)[name] == id,
        id_for_spec(registry_of(lines), name) == Some(id & EXTENDED_ID_MASK),
    decreases lines.len(),
{
    if i == lines.len() - 1 {
    } else {
        assert(lines.drop_last()[i] == lines[i]);
        lemma_last_definition_wins(lines.drop_last(), i, name, id);
    }
}

/// A name that no line of the database defines stays unresolved.
pub proof fn lemma_undefined_name_absent(lines: Seq<Seq<char>>, name: Seq<char>)
    requires
        forall|j: int| 0 <= j < lines.len() ==> (match parse_line_spec(#[trigger] lines[j]) {
            Some(d) => d.0 != name,
            None => true,
        }),
    ensures
        !registry_of(lines).contains_key(name),
        id_for_spec(registry_of(lines), name) is None,
    decreases lines.len(),
{
    if lines.len() > 0 {
        lemma_undefined_name_absent(lines.drop_last(), name);
    }
}

/// The number of names of a batch that the registry does not define.
pub open spec fn miss_count(m: Map<Seq<char>, u32>, names: Seq<Seq<char>>) -> nat
    decreases names.len(),
{
    if names.len() == 0 {
        0
    } else {
        miss_count(m, names.drop_last()) + (if m.contains_key(names.last()) {
            0nat
        } else {
            1nat
        })
    }
}

/// Batch resolution drops exactly the undefined names: the output is shorter
/// than the input by the number of misses.
pub proof fn lemma_resolved_ids_len(m: Map<Seq<char>, u32>, names: Seq<Seq<char>>)
    ensures
        resolved_ids(m, names).len() + miss_count(m, names) == names.len(),
    decreases names.len(),
{
    if names.len() > 0 {
        lemma_resolved_ids_len(m, names.drop_last());
    }
}

/// Each filter pairs the masked identifier that batch resolution yields for
/// the same name with the fixed extended-identifier mask, in the same order.
pub proof fn lemma_filters_match_ids(m: Map<Seq<char>, u32>, names: Seq<Seq<char>>)
    ensures
        resolved_filters(m, names).len() == resolved_ids(m, names).len(),
        forall|k: int| 0 <= k < resolved_filters(m, names).len() ==> (#[trigger] resolved_filters(
            m,
            names,
        )[k]).id == resolved_ids(m, names)[k] && resolved_filters(m, names)[k].mask
            == EXTENDED_ID_MASK,
    decreases names.len(),
{
    if names.len() > 0 {
        lemma_filters_match_ids(m, names.drop_last());
    }
}

} // verus!
