use vstd::prelude::*;
use fxhash::FxHashMap;

verus! {

/// A hash map from names to numbers.
pub type NameTable = FxHashMap<String, usize>;

/// What a [`NameTable`] holds: the number under each name that is present.
pub uninterp spec fn table_names(t: NameTable) -> Map<Seq<char>, usize>;

/// The table without any name.
pub open spec fn no_names() -> Map<Seq<char>, usize> {
    Map::empty()
}

/// `HashMap::default`: a new map holds nothing.
#[verifier::external_body]
fn names_new() -> (table: NameTable)
    ensures
        table_names(table) == no_names(),
{
    FxHashMap::default()
}

/// `HashMap::get`: the number under `name`, if the name is present.
#[verifier::external_body]
fn names_get(t: &NameTable, name: &String) -> (r: Option<usize>)
    ensures
        r == (if table_names(*t).contains_key(name@) {
            Some(table_names(*t)[name@])
        } else {
            None
        }),
{
    t.get(name).copied()
}

/// `HashMap::insert`: afterwards the map holds `index` under `name`, whatever it
/// held there before, and every other entry as it was.
#[verifier::external_body]
fn names_insert(t: &mut NameTable, name: String, index: usize)
    ensures
        table_names(*final(t)) == table_names(*old(t)).insert(name@, index),
{
    t.insert(name, index);
}

/// `HashMap::len`: how many names the map holds.
#[verifier::external_body]
fn names_len(t: &NameTable) -> (n: usize)
    ensures
        n == table_names(*t).dom().len(),
{
    t.len()
}

/// Whether `m` numbers its names densely, as they come: finitely many names,
/// every number below the number of names, and no number twice.
pub open spec fn dense(m: Map<Seq<char>, usize>) -> bool {
    &&& m.dom().finite()
    &&& forall|n: Seq<char>| #[trigger] m.contains_key(n) ==> m[n] < m.dom().len()
    &&& forall|a: Seq<char>, b: Seq<char>|
        #![trigger m[a], m[b]]
        m.contains_key(a) && m.contains_key(b) && m[a] == m[b] ==> a == b
}

/// The map after `name` was looked up in `m` and added if it was missing: a
/// new name gets the next free number. A map that holds as many names as can
/// be counted stays as it is.
pub open spec fn with_name(m: Map<Seq<char>, usize>, name: Seq<char>) -> Map<Seq<char>, usize> {
    if m.contains_key(name) || m.dom().len() >= usize::MAX {
        m
    } else {
        m.insert(name, m.dom().len() as usize)
    }
}

/// The map after each of `names` was looked up in turn and added if missing.
pub open spec fn with_names(m: Map<Seq<char>, usize>, names: Seq<String>) -> Map<Seq<char>, usize>
    decreases names.len(),
{
    if names.len() == 0 {
        m
    } else {
        with_name(with_names(m, names.drop_last()), names.last()@)
    }
}

/// A dense numbering stays dense when a name is added, and keeps every number
/// it had.
pub proof fn lemma_with_name_dense(m: Map<Seq<char>, usize>, name: Seq<char>)
    requires
        dense(m),
    ensures
        dense(with_name(m, name)),
        m.dom().len() <= with_name(m, name).dom().len(),
        forall|n: Seq<char>| #[trigger]
            m.contains_key(n) ==> with_name(m, name).contains_key(n) && with_name(m, name)[n]
                == m[n],
{
    if !m.contains_key(name) && m.dom().len() < usize::MAX {
        let m2 = m.insert(name, m.dom().len() as usize);
        assert(m2.dom() =~= m.dom().insert(name));
    }
}

/// A dense numbering stays dense when names are added, and keeps every number
/// it had.
pub proof fn lemma_with_names_dense(m: Map<Seq<char>, usize>, names: Seq<String>)
    requires
        dense(m),
    ensures
        dense(with_names(m, names)),
        m.dom().len() <= with_names(m, names).dom().len(),
        forall|n: Seq<char>| #[trigger]
            m.contains_key(n) ==> with_names(m, names).contains_key(n) && with_names(m, names)[n]
                == m[n],
    decreases names.len(),
{
    if names.len() > 0 {
        lemma_with_names_dense(m, names.drop_last());
        lemma_with_name_dense(with_names(m, names.drop_last()), names.last()@);
    }
}

/// A map from names to numbers.
pub struct NameMap {
    table: NameTable,
}

impl View for NameMap {
    type V = Map<Seq<char>, usize>;

    closed spec fn view(&self) -> Map<Seq<char>, usize> {
        table_names(self.table)
    }
}

impl NameMap {
    /// A map without any name.
    pub fn new() -> (r: Self)
        ensures
            r@ == no_names(),
            dense(r@),
    {
        let r = NameMap { table: names_new() };
        assert(r@.dom() =~= Set::empty());
        r
    }

    /// How many names have a number.
    pub fn len(&self) -> (n: usize)
        ensures
            n == self@.dom().len(),
    {
        names_len(&self.table)
    }

    /// The number of `name`, if it has one.
    pub fn get(&self, name: &String) -> (r: Option<usize>)
        ensures
            r == (if self@.contains_key(name@) {
                Some(self@[name@])
            } else {
                None
            }),
    {
        names_get(&self.table, name)
    }

    /// Gives `name` the number `index`, whether or not it had one.
    pub fn insert(&mut self, name: String, index: usize)
        ensures
            final(self)@ == old(self)@.insert(name@, index),
    {
        names_insert(&mut self.table, name, index);
    }
}

/// The number of `variable_name` in `num_var_map`; a name that has none yet gets
/// the next free number. Returns `None` only when the name is new and no number
/// is left.
pub fn get_num_from_map(variable_name: &String, num_var_map: &mut NameMap) -> (r: Option<usize>)
    requires
        dense(old(num_var_map)@),
    ensures
        dense(final(num_var_map)@),
        final(num_var_map)@ == with_name(old(num_var_map)@, variable_name@),
        r == (if final(num_var_map)@.contains_key(variable_name@) {
            Some(final(num_var_map)@[variable_name@])
        } else {
            None
        }),
{
    match num_var_map.get(variable_name) {
        Some(i) => Some(i),
        None => {
            let x = num_var_map.len();
            if x == usize::MAX {
                return None;
            }
            proof {
                lemma_with_name_dense(num_var_map@, variable_name@);
            }
            num_var_map.insert(variable_name.clone(), x);
            Some(x)
        },
    }
}

} // verus!
