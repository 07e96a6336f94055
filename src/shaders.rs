use vstd::prelude::*;

verus! {

/// A table from shader names to the program handles the graphics driver assigned them.
/// Registering a name again replaces its program.
pub struct ShaderRegistry {
    entries: Vec<(String, u32)>,
}

/// The name-to-program map that a list of registrations leaves, later ones winning.
pub open spec fn entries_map(e: Seq<(String, u32)>) -> Map<Seq<char>, u32>
    decreases e.len(),
{
    if e.len() == 0 {
        Map::empty()
    } else {
        entries_map(e.drop_last()).insert(e.last().0@, e.last().1)
    }
}

/// Registrations after position `i` that do not mention `n` leave its entry as it was.
proof fn lemma_entries_suffix(e: Seq<(String, u32)>, i: int, n: Seq<char>)
    requires
        0 <= i <= e.len(),
        forall|j: int| i <= j < e.len() ==> (#[trigger] e[j]).0@ != n,
    ensures
        entries_map(e).contains_key(n) == entries_map(e.take(i)).contains_key(n),
        entries_map(e).contains_key(n) ==> entries_map(e)[n] == entries_map(e.take(i))[n],
    decreases e.len() - i,
{
    if i < e.len() {
        let p = e.drop_last();
        assert forall|j: int| i <= j < p.len() implies (#[trigger] p[j]).0@ != n by {
            assert(p[j] == e[j]);
        }
        lemma_entries_suffix(p, i, n);
        assert(p.take(i) =~= e.take(i));
    } else {
        assert(e.take(i) =~= e);
    }
}

impl View for ShaderRegistry {
    type V = Map<Seq<char>, u32>;

    closed spec fn view(&self) -> Map<Seq<char>, u32> {
        entries_map(self.entries@)
    }
}

impl ShaderRegistry {
    /// A registry with no shaders.
    pub fn new() -> (r: ShaderRegistry)
        ensures
            r@ == Map::<Seq<char>, u32>::empty(),
    {
        ShaderRegistry { entries: Vec::new() }
    }

    /// Associates `name` with `program`, replacing any earlier program of that name.
    pub fn register(&mut self, name: &str, program: u32)
        ensures
            final(self)@ == old(self)@.insert(name@, program),
    {
        let key = name.to_owned();
        self.entries.push((key, program));
        assert(self.entries@.drop_last() =~= old(self).entries@);
    }

    /// The program registered under `name`, if any.
    pub fn lookup(&self, name: &str) -> (r: Option<u32>)
        ensures
            r == (if self@.contains_key(name@) {
                Some(self@[name@])
            } else {
                None
            }),
    {
        let key = name.to_owned();
        let mut i: usize = self.entries.len();
        while i > 0
            invariant
                i <= self.entries@.len(),
                key@ == name@,
                forall|j: int| i <= j < self.entries@.len() ==> (#[trigger] self.entries@[j]).0@ != name@,
            decreases i,
        {
            i = i - 1;
            if self.entries[i].0 == key {
                let program = self.entries[i].1;
                proof {
                    let e = self.entries@;
                    lemma_entries_suffix(e, i + 1, name@);
                    assert(e.take(i + 1).drop_last() =~= e.take(i as int));
                    assert(e.take(i + 1).last() == e[i as int]);
                }
                return Some(program);
            }
        }
        proof {
            lemma_entries_suffix(self.entries@, 0, name@);
            assert(self.entries@.take(0) =~= Seq::<(String, u32)>::empty());
        }
        None
    }
}

} // verus!
