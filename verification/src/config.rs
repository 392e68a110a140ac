//! The repository configuration: a mapping from section and key to an
//! optional string value, with the version gate the loader enforces. Reading
//! the file and parsing its INI text happen at the edge; this type receives
//! the parsed entries as plain values.

use vstd::prelude::*;

verus! {

/// One parsed configuration line: a section, a key, and its value.
#[derive(Debug)]
pub struct ConfigEntry {
    pub section: String,
    pub key: String,
    pub value: Option<String>,
}

/// The mathematical value of a `ConfigEntry`.
pub ghost struct ConfigEntryView {
    pub section: Seq<char>,
    pub key: Seq<char>,
    pub value: Option<Seq<char>>,
}

impl View for ConfigEntry {
    type V = ConfigEntryView;

    open spec fn view(&self) -> ConfigEntryView {
        ConfigEntryView { section: self.section@, key: self.key@, value: self.value.deep_view() }
    }
}

impl DeepView for ConfigEntry {
    type V = ConfigEntryView;

    open spec fn deep_view(&self) -> ConfigEntryView {
        self.view()
    }
}

/// Parsed configuration: section and key to optional value.
#[derive(Debug)]
pub struct Config {
    entries: Vec<ConfigEntry>,
}

/// The map spelled by an entry list; the table keeps section-key pairs
/// unique, so this is simply "the entry with that section and key".
spec fn spec_cmap(entries: Seq<ConfigEntryView>) -> Map<(Seq<char>, Seq<char>), Option<Seq<char>>>
    decreases entries.len(),
{
    if entries.len() == 0 {
        Map::empty()
    } else {
        spec_cmap(entries.drop_last()).insert(
            (entries.last().section, entries.last().key),
            entries.last().value,
        )
    }
}

spec fn unique_pairs(entries: Seq<ConfigEntryView>) -> bool {
    forall|i: int, j: int|
        0 <= i < j < entries.len() ==> ((#[trigger] entries[i].section, entries[i].key) != (
        #[trigger] entries[j].section, entries[j].key))
}

proof fn lemma_spec_cmap_contains(entries: Seq<ConfigEntryView>, k: (Seq<char>, Seq<char>))
    ensures
        spec_cmap(entries).contains_key(k) <==> exists|i: int|
            0 <= i < entries.len() && ((#[trigger] entries[i].section, entries[i].key) == k),
    decreases entries.len(),
{
    if entries.len() > 0 {
        lemma_spec_cmap_contains(entries.drop_last(), k);
        if spec_cmap(entries).contains_key(k) {
            if (entries.last().section, entries.last().key) != k {
                let i = choose|i: int|
                    0 <= i < entries.drop_last().len() && ((#[trigger] entries.drop_last()[i].section,
                    entries.drop_last()[i].key) == k);
                assert((entries[i].section, entries[i].key) == k);
            }
        }
        if exists|i: int| 0 <= i < entries.len() && ((#[trigger] entries[i].section, entries[i].key)
            == k) {
            let i = choose|i: int|
                0 <= i < entries.len() && ((#[trigger] entries[i].section, entries[i].key) == k);
            if i < entries.len() - 1 {
                assert((entries.drop_last()[i].section, entries.drop_last()[i].key) == k);
            }
        }
    }
}

proof fn lemma_spec_cmap_index(entries: Seq<ConfigEntryView>, i: int)
    requires
        unique_pairs(entries),
        0 <= i < entries.len(),
    ensures
        spec_cmap(entries).contains_key((entries[i].section, entries[i].key)),
        spec_cmap(entries)[(entries[i].section, entries[i].key)] == entries[i].value,
    decreases entries.len(),
{
    if i == entries.len() - 1 {
    } else {
        lemma_spec_cmap_index(entries.drop_last(), i);
        assert(entries.drop_last()[i] == entries[i]);
    }
}

proof fn lemma_spec_cmap_remove(entries: Seq<ConfigEntryView>, i: int)
    requires
        unique_pairs(entries),
        0 <= i < entries.len(),
    ensures
        spec_cmap(entries.remove(i)) == spec_cmap(entries).remove(
            (entries[i].section, entries[i].key),
        ),
    decreases entries.len(),
{
    let k = (entries[i].section, entries[i].key);
    if i == entries.len() - 1 {
        assert(entries.remove(i) =~= entries.drop_last());
        lemma_spec_cmap_contains(entries.drop_last(), k);
        assert forall|j: int| 0 <= j < entries.drop_last().len() implies ((
        #[trigger] entries.drop_last()[j].section, entries.drop_last()[j].key) != k) by {
            assert(entries[j] == entries.drop_last()[j]);
        }
        assert(!spec_cmap(entries.drop_last()).contains_key(k));
        assert(spec_cmap(entries.drop_last()) =~= spec_cmap(entries).remove(k));
    } else {
        lemma_spec_cmap_remove(entries.drop_last(), i);
        assert(entries.remove(i).drop_last() =~= entries.drop_last().remove(i));
        assert(entries.remove(i).last() == entries.last());
        let el = entries.last();
        assert((el.section, el.key) != k);
        assert(spec_cmap(entries.drop_last()).remove(k).insert((el.section, el.key), el.value)
            =~= spec_cmap(entries.drop_last()).insert((el.section, el.key), el.value).remove(k));
    }
}

/// The configuration key that carries the repository format version.
pub open spec fn version_key() -> (Seq<char>, Seq<char>) {
    ("core"@, "repositoryformatversion"@)
}

/// The format version this library supports.
pub open spec fn supported_version() -> Seq<char> {
    "0"@
}

/// Whether a configuration carries exactly the supported format version.
pub open spec fn version_ok(c: Config) -> bool {
    c@.contains_key(version_key()) && c@[version_key()] == Some(supported_version())
}

impl Config {
    #[verifier::type_invariant]
    spec fn inv(&self) -> bool {
        unique_pairs(self.entries.deep_view())
    }

    /// The mathematical content: section and key to optional value.
    pub closed spec fn view(&self) -> Map<(Seq<char>, Seq<char>), Option<Seq<char>>> {
        spec_cmap(self.entries.deep_view())
    }

    /// The entries in order, for spilling the configuration back to a file.
    pub closed spec fn entry_seq(&self) -> Seq<ConfigEntryView> {
        self.entries.deep_view()
    }

    /// An empty configuration.
    pub fn new() -> (r: Config)
        ensures
            r@ == Map::<(Seq<char>, Seq<char>), Option<Seq<char>>>::empty(),
            r.entry_seq() == Seq::<ConfigEntryView>::empty(),
    {
        let r = Config { entries: Vec::new() };
        proof {
            assert(r.entry_seq() =~= Seq::<ConfigEntryView>::empty());
        }
        r
    }

    /// How many entries the configuration holds.
    pub fn len(&self) -> (n: usize)
        ensures
            n == self.entry_seq().len(),
    {
        self.entries.len()
    }

    /// The entry at position `i`.
    pub fn entry_at(&self, i: usize) -> (r: &ConfigEntry)
        requires
            i < self.entry_seq().len(),
        ensures
            r@ == self.entry_seq()[i as int],
            self@.contains_key((r@.section, r@.key)),
            self@[(r@.section, r@.key)] == r@.value,
    {
        proof {
            use_type_invariant(self);
            lemma_spec_cmap_index(self.entries.deep_view(), i as int);
        }
        &self.entries[i]
    }

    /// Sets `section.key` to `value`, inserting or replacing.
    pub fn set(&mut self, section: &str, key: &str, value: Option<String>)
        ensures
            final(self)@ == old(self)@.insert((section@, key@), value.deep_view()),
    {
        proof {
            use_type_invariant(&*self);
        }
        let section_s = section.to_owned();
        let key_s = key.to_owned();
        let mut entries: Vec<ConfigEntry> = Vec::new();
        core::mem::swap(&mut entries, &mut self.entries);
        let ghost orig = entries.deep_view();
        let n = entries.len();
        let mut i: usize = 0;
        while i < n
            invariant
                section_s@ == section@,
                key_s@ == key@,
                n == entries@.len(),
                0 <= i <= n,
                entries.deep_view() == orig,
                orig == old(self).entries.deep_view(),
                unique_pairs(orig),
                forall|j: int|
                    0 <= j < i ==> ((#[trigger] orig[j].section, orig[j].key) != (section@, key@)),
            decreases n - i,
        {
            proof {
                assert(orig[i as int] == entries@[i as int]@);
            }
            if entries[i].section == section_s && entries[i].key == key_s {
                proof {
                    lemma_spec_cmap_remove(orig, i as int);
                }
                entries.remove(i);
                proof {
                    assert(entries.deep_view() =~= orig.remove(i as int));
                    assert forall|a: int, b: int|
                        0 <= a < b < entries.deep_view().len() implies ((
                    #[trigger] entries.deep_view()[a].section, entries.deep_view()[a].key) != (
                    #[trigger] entries.deep_view()[b].section, entries.deep_view()[b].key)) by {
                        let dv = entries.deep_view();
                        if b < i {
                            assert(dv[a] == orig[a] && dv[b] == orig[b]);
                        } else if a < i {
                            assert(dv[a] == orig[a] && dv[b] == orig[b + 1]);
                        } else {
                            assert(dv[a] == orig[a + 1] && dv[b] == orig[b + 1]);
                        }
                    }
                    assert forall|j: int| 0 <= j < entries.deep_view().len() implies ((
                    #[trigger] entries.deep_view()[j].section, entries.deep_view()[j].key) != (
                    section@, key@)) by {
                        let dv = entries.deep_view();
                        if j < i {
                            assert(dv[j] == orig[j]);
                        } else {
                            assert(dv[j] == orig[j + 1]);
                        }
                    }
                }
                let ghost removed = entries.deep_view();
                entries.push(ConfigEntry { section: section_s, key: key_s, value });
                proof {
                    let dv = entries.deep_view();
                    assert(dv.drop_last() =~= removed);
                    assert(dv.last() == (ConfigEntryView {
                        section: section@,
                        key: key@,
                        value: value.deep_view(),
                    }));
                    assert forall|a: int, b: int| 0 <= a < b < dv.len() implies ((
                    #[trigger] dv[a].section, dv[a].key) != (#[trigger] dv[b].section,
                    dv[b].key)) by {
                        assert(dv.drop_last()[a] == dv[a]);
                        assert(dv[a] == removed[a]);
                        if b < dv.len() - 1 {
                            assert(dv.drop_last()[b] == dv[b]);
                            assert(dv[b] == removed[b]);
                        } else {
                            assert(dv[b] == dv.last());
                        }
                    }
                    assert(spec_cmap(dv) == spec_cmap(removed).insert(
                        (section@, key@),
                        value.deep_view(),
                    ));
                    assert(spec_cmap(orig).remove((section@, key@)).insert(
                        (section@, key@),
                        value.deep_view(),
                    ) =~= spec_cmap(orig).insert((section@, key@), value.deep_view()));
                }
                self.entries = entries;
                return ;
            }
            i = i + 1;
        }
        let ghost before = entries.deep_view();
        entries.push(ConfigEntry { section: section_s, key: key_s, value });
        proof {
            let dv = entries.deep_view();
            assert(dv.drop_last() =~= before);
            assert(dv.last() == (ConfigEntryView {
                section: section@,
                key: key@,
                value: value.deep_view(),
            }));
            assert forall|a: int, b: int| 0 <= a < b < dv.len() implies ((#[trigger] dv[a].section,
            dv[a].key) != (#[trigger] dv[b].section, dv[b].key)) by {
                assert(dv.drop_last()[a] == dv[a]);
                assert(dv[a] == before[a]);
                if b < dv.len() - 1 {
                    assert(dv.drop_last()[b] == dv[b]);
                    assert(dv[b] == before[b]);
                } else {
                    assert(dv[b] == dv.last());
                }
            }
        }
        self.entries = entries;
    }

    /// Whether this configuration's stored format version is exactly the one
    /// this library supports.
    pub fn version_supported(&self) -> (r: bool)
        ensures
            r == version_ok(*self),
    {
        match self.get("core", "repositoryformatversion") {
            Some(v) => match v {
                Some(s) => {
                    let zero = "0".to_owned();
                    *s == zero
                },
                None => false,
            },
            None => false,
        }
    }

    /// Looks `section.key` up.
    pub fn get(&self, section: &str, key: &str) -> (r: Option<&Option<String>>)
        ensures
            match r {
                Some(v) => self@.contains_key((section@, key@)) && v.deep_view() == self@[
                    (section@, key@)
                ],
                None => !self@.contains_key((section@, key@)),
            },
    {
        proof {
            use_type_invariant(self);
        }
        let section_s = section.to_owned();
        let key_s = key.to_owned();
        let n = self.entries.len();
        let mut i: usize = 0;
        while i < n
            invariant
                section_s@ == section@,
                key_s@ == key@,
                n == self.entries@.len(),
                unique_pairs(self.entries.deep_view()),
                0 <= i <= n,
                forall|j: int|
                    0 <= j < i ==> ((#[trigger] self.entries.deep_view()[j].section,
                    self.entries.deep_view()[j].key) != (section@, key@)),
            decreases n - i,
        {
            proof {
                assert(self.entries.deep_view()[i as int] == self.entries@[i as int]@);
            }
            if self.entries[i].section == section_s && self.entries[i].key == key_s {
                proof {
                    lemma_spec_cmap_index(self.entries.deep_view(), i as int);
                }
                return Some(&self.entries[i].value);
            }
            i = i + 1;
        }
        proof {
            lemma_spec_cmap_contains(self.entries.deep_view(), (section@, key@));
        }
        None
    }
}

} // verus!
