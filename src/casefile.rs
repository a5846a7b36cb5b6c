//! Case files: small incident records with a name, a resolution status and
//! a list of items, kept by a store under numeric ids.

use vstd::prelude::*;
use vstd::string::StrSliceExecFns;
use crate::text::{chars_of, decimal, push_decimal, join_words, parse_u64, str_views, string_views, u64_value, unsigned_value, vec_str_to_string};

verus! {

/// Something to do with a case file.
#[derive(PartialEq, Eq, Debug)]
pub enum CaseFileAction {
    /// Creates a new casefile
    Create {
        /// the name of the case
        name: String,
    },
    /// Reads all of a casefile into chat as a summary.
    Read {
        /// the relevant id
        id: u64,
    },
    /// Adds an item to a casefile.
    AddItem {
        /// the relevant id
        id: u64,
        /// the item to add to the file
        item: String,
    },
    /// Removes an item from a casefile
    RemoveItem {
        /// the relevant id
        id: u64,
        /// the index of the item; the last item where none is given
        index: Option<u64>,
    },
    /// Deletes a casefile
    Delete {
        /// the relevant id
        id: u64,
    },
    /// Views a summary of all casefiles
    ViewAll,
}

/// The case file that an action concerns, if it concerns one.
pub open spec fn action_id(a: &CaseFileAction) -> Option<u64> {
    match a {
        CaseFileAction::Create { .. } => None,
        CaseFileAction::Read { id } => Some(*id),
        CaseFileAction::AddItem { id, .. } => Some(*id),
        CaseFileAction::RemoveItem { id, .. } => Some(*id),
        CaseFileAction::Delete { id } => Some(*id),
        CaseFileAction::ViewAll => None,
    }
}

proof fn lemma_some_id_free(used: Seq<u64>)
    requires
        used.len() < u64::MAX,
    ensures
        exists|k: int| 0 <= k <= used.len() && !used.contains(#[trigger] (k as u64)),
{
    let ints = used.map_values(|x: u64| x as int);
    let range = vstd::set_lib::set_int_range(0, used.len() as int + 1);
    vstd::set_lib::lemma_int_range(0, used.len() as int + 1);
    ints.lemma_cardinality_of_set();
    assert(ints.len() == used.len());
    if forall|k: int| 0 <= k <= used.len() ==> used.contains(#[trigger] (k as u64)) {
        assert(range.subset_of(ints.to_set())) by {
            assert forall|k: int| range.contains(k) implies ints.to_set().contains(k) by {
                assert(used.contains(k as u64));
                let j = choose|j: int| 0 <= j < used.len() && used[j] == k as u64;
                assert(ints[j] == used[j] as int);
                assert(ints[j] == k);
            }
        }
        vstd::seq_lib::seq_to_set_is_finite(ints);
        vstd::set_lib::lemma_len_subset(range, ints.to_set());
        assert(false);
    }
}

impl CaseFileAction {
    /// Gets the relevant casefile ID, if one is present.
    pub fn id(&self) -> (r: Option<u64>)
        ensures
            r == action_id(self),
    {
        match self {
            CaseFileAction::Create { .. } => None,
            CaseFileAction::Read { id } => Some(*id),
            CaseFileAction::AddItem { id, .. } => Some(*id),
            CaseFileAction::RemoveItem { id, .. } => Some(*id),
            CaseFileAction::Delete { id } => Some(*id),
            CaseFileAction::ViewAll => None,
        }
    }

    /// The lowest id that none of the case files in `used` has.
    pub fn lowest_id_availible(used: &Vec<u64>) -> (r: u64)
        requires
            used@.len() < u64::MAX,
        ensures
            !used@.contains(r),
            forall|k: u64| k < r ==> used@.contains(k),
    {
        proof {
            lemma_some_id_free(used@);
        }
        let n = used.len();
        let mut candidate: u64 = 0;
        while candidate <= n as u64
            invariant
                n == used@.len(),
                n < u64::MAX,
                forall|k: u64| k < candidate ==> used@.contains(k),
                exists|k: int| 0 <= k <= used@.len() && !used@.contains(#[trigger] (k as u64)),
            decreases n - candidate + 1,
        {
            let mut found = false;
            let mut i: usize = 0;
            while i < n
                invariant
                    n == used@.len(),
                    i <= n,
                    found <==> exists|j: int| 0 <= j < i && used@[j] == candidate,
                decreases n - i,
            {
                if used[i] == candidate {
                    found = true;
                }
                i = i + 1;
            }
            if !found {
                assert(!used@.contains(candidate)) by {
                    if used@.contains(candidate) {
                        let j = choose|j: int| 0 <= j < used@.len() && used@[j] == candidate;
                        assert(used@[j] == candidate);
                    }
                }
                return candidate;
            }
            assert(used@.contains(candidate)) by {
                let j = choose|j: int| 0 <= j < i && used@[j] == candidate;
                assert(used@[j] == candidate);
            }
            candidate = candidate + 1;
        }
        proof {
            let k = choose|k: int| 0 <= k <= used@.len() && !used@.contains(#[trigger] (k as u64));
            assert((k as u64) < candidate);
        }
        0
    }
}


/// A representation of a case file.
#[derive(PartialEq, Eq, Debug)]
pub struct CaseFile {
    /// The name of the casefile
    pub name: String,
    /// Whether or not the casefile is resolved (true = resolved)
    pub resolved: bool,
    /// The related evidence or other noteworthy items
    pub items: Vec<String>,
}

/// What the store holds under a case file's id: its name, whether it is
/// resolved, and its items as text, one per line.
#[derive(PartialEq, Eq, Debug)]
pub struct CaseRecord {
    pub name: String,
    pub resolved: bool,
    pub data: String,
}

/// Why a case file could not be had.
#[derive(PartialEq, Eq, Debug)]
pub enum CaseFileError {
    /// A case file or an action on one could not be read.
    ParsingError(String),
}

/// Whether `c` is the case file that `rec` stores.
pub open spec fn decodes(c: CaseFile, rec: CaseRecord) -> bool {
    &&& c.name@ == rec.name@
    &&& c.resolved == rec.resolved
    &&& string_views(c.items@) == items_of(rec.data@)
}

/// The pieces of `s` between newlines, as `str::split('\n')` yields them.
pub open spec fn pieces(s: Seq<char>) -> Seq<Seq<char>>
    decreases s.len(),
{
    if s.len() == 0 {
        seq![Seq::empty()]
    } else {
        let prev = pieces(s.drop_last());
        if s.last() == '\n' {
            prev.push(Seq::empty())
        } else {
            prev.update(prev.len() - 1, prev.last().push(s.last()))
        }
    }
}

/// The items stored as `data`: one per line, none in an empty text.
pub open spec fn items_of(data: Seq<char>) -> Seq<Seq<char>> {
    if data.len() == 0 {
        Seq::empty()
    } else {
        pieces(data)
    }
}

/// Items written one per line.
pub open spec fn data_of(items: Seq<Seq<char>>) -> Seq<char>
    decreases items.len(),
{
    if items.len() == 0 {
        Seq::empty()
    } else if items.len() == 1 {
        items[0]
    } else {
        data_of(items.drop_last()) + seq!['\n'] + items.last()
    }
}

proof fn lemma_pieces_nonempty(s: Seq<char>)
    ensures
        pieces(s).len() > 0,
    decreases s.len(),
{
    if s.len() > 0 {
        lemma_pieces_nonempty(s.drop_last());
    }
}

/// Splits `s` at each newline.
fn split_lines(s: &str) -> (r: Vec<String>)
    ensures
        string_views(r@) == pieces(s@),
{
    let cs = chars_of(s);
    let n = cs.len();
    let mut r: Vec<String> = Vec::new();
    let mut start: usize = 0;
    let mut i: usize = 0;
    assert(string_views(r@) == Seq::<Seq<char>>::empty());
    assert(s@.subrange(0, 0) == Seq::<char>::empty());
    while i < n
        invariant
            n == cs@.len(),
            cs@ == s@,
            start <= i <= n,
            pieces(s@.subrange(0, i as int)) == string_views(r@).push(
                s@.subrange(start as int, i as int),
            ),
        decreases n - i,
    {
        let ghost pre = s@.subrange(0, i as int);
        let ghost next = s@.subrange(0, i + 1);
        assert(next.drop_last() == pre);
        if cs[i] == '\n' {
            let piece = String::from_str(s.substring_char(start, i));
            r.push(piece);
            assert(string_views(r@) == string_views(r@.drop_last()).push(piece@));
            start = i + 1;
            assert(s@.subrange(start as int, i + 1) == Seq::<char>::empty());
        } else {
            assert(s@.subrange(start as int, i + 1) == s@.subrange(start as int, i as int).push(
                cs@[i as int],
            ));
        }
        i = i + 1;
    }
    assert(s@.subrange(0, n as int) == s@);
    let piece = String::from_str(s.substring_char(start, n));
    r.push(piece);
    assert(string_views(r@) == string_views(r@.drop_last()).push(piece@));
    r
}

/// Joins `items` with a newline between each two.
fn join_lines(items: &Vec<String>) -> (r: String)
    ensures
        r@ == data_of(string_views(items@)),
{
    let ghost all = string_views(items@);
    let mut r = String::new();
    let mut i: usize = 0;
    while i < items.len()
        invariant
            i <= items@.len(),
            all == string_views(items@),
            r@ == data_of(all.subrange(0, i as int)),
        decreases items@.len() - i,
    {
        let ghost part = all.subrange(0, i + 1);
        assert(part.drop_last() == all.subrange(0, i as int));
        if i > 0 {
            r.append("\n");
            proof {
                reveal_strlit("\n");
            }
        }
        r.append(items[i].as_str());
        i = i + 1;
    }
    assert(all.subrange(0, items@.len() as int) == all);
    r
}

/// A copy of `s`.
fn copy_of(s: &String) -> (r: String)
    ensures
        r@ == s@,
{
    s.clone()
}

impl CaseFile {
    /// A new case file: named `name`, unresolved, with no items.
    pub fn new(name: &str) -> (r: CaseFile)
        ensures
            r.name@ == name@,
            !r.resolved,
            r.items@.len() == 0,
    {
        CaseFile { name: String::from_str(name), resolved: false, items: Vec::new() }
    }

    /// Gets whether the case is considered resolved
    pub fn is_resolved(&self) -> (r: bool)
        ensures
            r == self.resolved,
    {
        self.resolved
    }

    /// Gets the resolution as a string (either `"resolved"` or `"unresolved"`).
    pub fn resolution(&self) -> (r: String)
        ensures
            r@ == (if self.resolved {
                "resolved"@
            } else {
                "unresolved"@
            }),
    {
        if self.is_resolved() {
            String::from_str("resolved")
        } else {
            String::from_str("unresolved")
        }
    }

    /// Adds an item at the end of this casefile.
    pub fn push_item(&mut self, item: &str)
        ensures
            string_views(final(self).items@) == string_views(old(self).items@).push(item@),
            final(self).name == old(self).name,
            final(self).resolved == old(self).resolved,
    {
        let s = String::from_str(item);
        self.items.push(s);
        assert(string_views(self.items@) == string_views(old(self).items@).push(item@));
    }

    /// The case file stored as `record`.
    pub fn from_record(record: &CaseRecord) -> (r: CaseFile)
        ensures
            decodes(r, *record),
    {
        let items = if record.data.as_str().unicode_len() == 0 {
            Vec::new()
        } else {
            split_lines(record.data.as_str())
        };
        assert(items@.len() == 0 ==> string_views(items@) == Seq::<Seq<char>>::empty());
        CaseFile { name: copy_of(&record.name), resolved: record.resolved, items }
    }

    /// The case file that the store holds under an id: `found` is what the
    /// store gave for it, `None` where it held nothing.
    pub fn from_id(found: &Option<CaseRecord>) -> (r: Result<CaseFile, CaseFileError>)
        ensures
            found is None ==> (r matches Err(CaseFileError::ParsingError(m)) && m@
                == "Couldn't get the case from the SQL database"@),
            found matches Some(rec) ==> (r matches Ok(c) && decodes(c, *rec)),
    {
        match found {
            Some(record) => Ok(CaseFile::from_record(record)),
            None => Err(
                CaseFileError::ParsingError(
                    String::from_str("Couldn't get the case from the SQL database"),
                ),
            ),
        }
    }

    /// The case files that the store holds, from what it gave for each id
    /// in turn; ids under which it held nothing are left out.
    pub fn all_files(found: &Vec<Option<CaseRecord>>) -> (r: Vec<CaseFile>)
        ensures
            r@.len() <= found@.len(),
            r@.len() == found@.filter(|f: Option<CaseRecord>| f is Some).len(),
            forall|i: int|
                0 <= i < r@.len() ==> decodes(
                    #[trigger] r@[i],
                    found@.filter(|f: Option<CaseRecord>| f is Some)[i]->Some_0,
                ),
    {
        let ghost present = |f: Option<CaseRecord>| f is Some;
        let mut r: Vec<CaseFile> = Vec::new();
        let mut i: usize = 0;
        while i < found.len()
            invariant
                i <= found@.len(),
                present == (|f: Option<CaseRecord>| f is Some),
                r@.len() == found@.subrange(0, i as int).filter(present).len(),
                r@.len() <= i,
                forall|j: int|
                    0 <= j < r@.len() ==> decodes(
                        #[trigger] r@[j],
                        found@.subrange(0, i as int).filter(present)[j]->Some_0,
                    ),
            decreases found@.len() - i,
        {
            let ghost before = found@.subrange(0, i as int);
            let ghost after = found@.subrange(0, i + 1);
            assert(after.drop_last() == before);
            proof {
                before.lemma_filter_push(found@[i as int], present);
            }
            assert(after == before.push(found@[i as int]));
            match &found[i] {
                Some(record) => {
                    let c = CaseFile::from_record(record);
                    let ghost old_r = r@;
                    r.push(c);
                    assert(found@[i as int] == Some(*record));
                    assert(present(found@[i as int]));
                    assert(after.filter(present) == before.filter(present).push(found@[i as int]));
                    assert forall|j: int| 0 <= j < r@.len() implies decodes(
                        #[trigger] r@[j],
                        after.filter(present)[j]->Some_0,
                    ) by {
                        if j < old_r.len() {
                            assert(r@[j] == old_r[j]);
                        }
                    }
                },
                None => {
                    assert(found@[i as int] is None);
                    assert(!present(found@[i as int]));
                    assert(after.filter(present) == before.filter(present));
                },
            }
            i = i + 1;
        }
        assert(found@.subrange(0, found@.len() as int) == found@);
        r
    }

    /// The record to store under this case file's id: its items are
    /// written one per line.
    pub fn write_to_id(&self) -> (r: CaseRecord)
        ensures
            r.name@ == self.name@,
            r.resolved == self.resolved,
            r.data@ == data_of(string_views(self.items@)),
    {
        CaseRecord { name: copy_of(&self.name), resolved: self.resolved, data: join_lines(&self.items) }
    }
}


/// The pieces of `s` between spaces and newlines, empty ones included.
pub open spec fn fields(s: Seq<char>) -> Seq<Seq<char>>
    decreases s.len(),
{
    if s.len() == 0 {
        seq![Seq::empty()]
    } else {
        let prev = fields(s.drop_last());
        if s.last() == ' ' || s.last() == '\n' {
            prev.push(Seq::empty())
        } else {
            prev.update(prev.len() - 1, prev.last().push(s.last()))
        }
    }
}

/// What `u64::from_str` says, as text, of a text that is no `u64`.
pub open spec fn number_error(s: Seq<char>) -> Seq<char> {
    if s.len() == 0 {
        "cannot parse integer from empty string"@
    } else if unsigned_value(s) is Some {
        "number too large to fit in target type"@
    } else {
        "invalid digit found in string"@
    }
}

/// The id at `fs[k]`, or the error for it; `missing` where there is none.
pub open spec fn id_at(fs: Seq<Seq<char>>, k: int, missing: Seq<char>) -> Result<u64, Seq<char>> {
    if fs.len() <= k {
        Err(missing)
    } else {
        match u64_value(fs[k]) {
            Some(v) => Ok(v),
            None => Err(number_error(fs[k])),
        }
    }
}

/// A case-file action as it is spelled out, or the reason it is no action.
pub enum CaseActionModel {
    Create(Seq<char>),
    Read(u64),
    AddItem(u64, Seq<char>),
    RemoveItem(u64, Option<u64>),
    Delete(u64),
    ViewAll,
}

pub open spec fn action_model(a: &CaseFileAction) -> CaseActionModel {
    match a {
        CaseFileAction::Create { name } => CaseActionModel::Create(name@),
        CaseFileAction::Read { id } => CaseActionModel::Read(*id),
        CaseFileAction::AddItem { id, item } => CaseActionModel::AddItem(*id, item@),
        CaseFileAction::RemoveItem { id, index } => CaseActionModel::RemoveItem(*id, *index),
        CaseFileAction::Delete { id } => CaseActionModel::Delete(*id),
        CaseFileAction::ViewAll => CaseActionModel::ViewAll,
    }
}

/// The action that `s` spells out: `casefile` and a verb, then the verb's
/// arguments, all parted by single spaces or newlines; or the reason it
/// spells out none.
pub open spec fn parse_action(s: Seq<char>) -> Result<CaseActionModel, Seq<char>> {
    let fs = fields(s);
    if fs[0] != "casefile"@ {
        Err("Not a casefile command"@)
    } else if fs.len() == 1 {
        Err("No valid action to take!"@)
    } else if fs[1] == "create"@ {
        Ok(CaseActionModel::Create(join_words(fs.subrange(2, fs.len() as int))))
    } else if fs[1] == "read"@ {
        match id_at(fs, 2, "no given index to read from"@) {
            Ok(id) => Ok(CaseActionModel::Read(id)),
            Err(e) => Err(e),
        }
    } else if fs[1] == "add"@ {
        match id_at(fs, 2, "no given index to add to"@) {
            Ok(id) => if fs.len() < 4 {
                Err("no item to add"@)
            } else {
                Ok(CaseActionModel::AddItem(id, join_words(fs.subrange(3, fs.len() as int))))
            },
            Err(e) => Err(e),
        }
    } else if fs[1] == "remove"@ {
        match id_at(fs, 2, "no given index to remove from"@) {
            Ok(id) => if fs.len() < 4 {
                Ok(CaseActionModel::RemoveItem(id, None))
            } else {
                match u64_value(join_words(fs.subrange(3, fs.len() as int))) {
                    Some(index) => Ok(CaseActionModel::RemoveItem(id, Some(index))),
                    None => Err(number_error(join_words(fs.subrange(3, fs.len() as int)))),
                }
            },
            Err(e) => Err(e),
        }
    } else if fs[1] == "delete"@ {
        match id_at(fs, 2, "no given index to delete"@) {
            Ok(id) => Ok(CaseActionModel::Delete(id)),
            Err(e) => Err(e),
        }
    } else if fs[1] == "view"@ {
        Ok(CaseActionModel::ViewAll)
    } else {
        Err("-"@ + fs[1])
    }
}

proof fn lemma_fields_nonempty(s: Seq<char>)
    ensures
        fields(s).len() > 0,
    decreases s.len(),
{
    if s.len() > 0 {
        lemma_fields_nonempty(s.drop_last());
    }
}

/// Splits `s` at each space and newline, keeping empty pieces.
fn split_fields<'a>(s: &'a str) -> (r: Vec<&'a str>)
    ensures
        str_views(r@) == fields(s@),
{
    let cs = chars_of(s);
    let n = cs.len();
    let mut r: Vec<&'a str> = Vec::new();
    let mut start: usize = 0;
    let mut i: usize = 0;
    assert(str_views(r@) == Seq::<Seq<char>>::empty());
    assert(s@.subrange(0, 0) == Seq::<char>::empty());
    while i < n
        invariant
            n == cs@.len(),
            cs@ == s@,
            start <= i <= n,
            fields(s@.subrange(0, i as int)) == str_views(r@).push(
                s@.subrange(start as int, i as int),
            ),
        decreases n - i,
    {
        let ghost pre = s@.subrange(0, i as int);
        let ghost next = s@.subrange(0, i + 1);
        assert(next.drop_last() == pre);
        if cs[i] == ' ' || cs[i] == '\n' {
            let piece = s.substring_char(start, i);
            r.push(piece);
            assert(str_views(r@) == str_views(r@.drop_last()).push(piece@));
            start = i + 1;
            assert(s@.subrange(start as int, i + 1) == Seq::<char>::empty());
        } else {
            assert(s@.subrange(start as int, i + 1) == s@.subrange(start as int, i as int).push(
                cs@[i as int],
            ));
        }
        i = i + 1;
    }
    assert(s@.subrange(0, n as int) == s@);
    let piece = s.substring_char(start, n);
    r.push(piece);
    assert(str_views(r@) == str_views(r@.drop_last()).push(piece@));
    r
}

/// The error `u64::from_str` gives for `s`, which is no `u64`.
fn number_error_of(s: &str) -> (r: CaseFileError)
    ensures
        r matches CaseFileError::ParsingError(m) && m@ == number_error(s@),
{
    let cs = chars_of(s);
    if cs.len() == 0 {
        return CaseFileError::ParsingError(
            String::from_str("cannot parse integer from empty string"),
        );
    }
    let start: usize = if cs[0] == '+' {
        1
    } else {
        0
    };
    let ghost d = cs@.subrange(start as int, cs@.len() as int);
    assert(d == (if s@.len() > 0 && s@[0] == '+' {
        s@.drop_first()
    } else {
        s@
    }));
    let mut all = start < cs.len();
    let mut i = start;
    while i < cs.len()
        invariant
            start <= i <= cs@.len(),
            d == cs@.subrange(start as int, cs@.len() as int),
            all <==> (start < cs@.len() && forall|j: int|
                start <= j < i ==> crate::text::is_digit(#[trigger] cs@[j])),
        decreases cs@.len() - i,
    {
        if !('0' <= cs[i] && cs[i] <= '9') {
            all = false;
        }
        i = i + 1;
    }
    assert(all <==> (d.len() > 0 && crate::text::all_digits(d))) by {
        if all {
            assert forall|j: int| 0 <= j < d.len() implies crate::text::is_digit(
                #[trigger] d[j],
            ) by {
                assert(d[j] == cs@[start + j]);
            }
        }
        if d.len() > 0 && crate::text::all_digits(d) {
            assert forall|j: int| start <= j < cs@.len() implies crate::text::is_digit(
                #[trigger] cs@[j],
            ) by {
                assert(d[j - start] == cs@[j]);
            }
        }
    }
    if all {
        CaseFileError::ParsingError(String::from_str("number too large to fit in target type"))
    } else {
        CaseFileError::ParsingError(String::from_str("invalid digit found in string"))
    }
}

/// The id at `fs[k]`, or the error for it.
fn id_in(fs: &Vec<&str>, k: usize, missing: &str) -> (r: Result<u64, CaseFileError>)
    ensures
        id_at(str_views(fs@), k as int, missing@) matches Ok(v) ==> r == Ok::<u64, CaseFileError>(v),
        id_at(str_views(fs@), k as int, missing@) matches Err(m) ==> (r matches Err(
            CaseFileError::ParsingError(e),
        ) && e@ == m),
{
    if fs.len() <= k {
        return Err(CaseFileError::ParsingError(String::from_str(missing)));
    }
    assert(str_views(fs@)[k as int] == fs@[k as int]@);
    match parse_u64(fs[k]) {
        Some(v) => Ok(v),
        None => Err(number_error_of(fs[k])),
    }
}

/// Whether the result of reading an action is what `parse_action` says.
pub open spec fn reads_as(r: Result<CaseFileAction, CaseFileError>, s: Seq<char>) -> bool {
    match parse_action(s) {
        Ok(a) => r matches Ok(b) && action_model(&b) == a,
        Err(m) => r matches Err(CaseFileError::ParsingError(e)) && e@ == m,
    }
}

impl CaseFileAction {
    /// Reads the action that `s` spells out: `casefile create <name>`,
    /// `casefile read <id>`, `casefile add <id> <item>`, `casefile remove
    /// <id> [<index>]`, `casefile delete <id>` or `casefile view`, with words
    /// parted by single spaces or newlines.
    pub fn parse(s: &str) -> (r: Result<CaseFileAction, CaseFileError>)
        ensures
            reads_as(r, s@),
    {
        let args = split_fields(s);
        proof {
            lemma_fields_nonempty(s@);
        }
        let ghost fs = str_views(args@);
        assert(fs[0] == args@[0]@);
        if !crate::text::same_text(args[0], "casefile") {
            return Err(CaseFileError::ParsingError(String::from_str("Not a casefile command")));
        }
        if args.len() == 1 {
            return Err(CaseFileError::ParsingError(String::from_str("No valid action to take!")));
        }
        let verb = args[1];
        assert(fs[1] == verb@);
        if crate::text::same_text(verb, "create") {
            Ok(CaseFileAction::Create { name: vec_str_to_string(args.as_slice(), Some(2)) })
        } else if crate::text::same_text(verb, "read") {
            match id_in(&args, 2, "no given index to read from") {
                Ok(id) => Ok(CaseFileAction::Read { id }),
                Err(e) => Err(e),
            }
        } else if crate::text::same_text(verb, "add") {
            match id_in(&args, 2, "no given index to add to") {
                Ok(id) => if args.len() < 4 {
                    Err(CaseFileError::ParsingError(String::from_str("no item to add")))
                } else {
                    Ok(CaseFileAction::AddItem { id, item: vec_str_to_string(args.as_slice(), Some(3)) })
                },
                Err(e) => Err(e),
            }
        } else if crate::text::same_text(verb, "remove") {
            match id_in(&args, 2, "no given index to remove from") {
                Ok(id) => if args.len() < 4 {
                    Ok(CaseFileAction::RemoveItem { id, index: None })
                } else {
                    let rest = vec_str_to_string(args.as_slice(), Some(3));
                    match parse_u64(rest.as_str()) {
                        Some(index) => Ok(CaseFileAction::RemoveItem { id, index: Some(index) }),
                        None => Err(number_error_of(rest.as_str())),
                    }
                },
                Err(e) => Err(e),
            }
        } else if crate::text::same_text(verb, "delete") {
            match id_in(&args, 2, "no given index to delete") {
                Ok(id) => Ok(CaseFileAction::Delete { id }),
                Err(e) => Err(e),
            }
        } else if crate::text::same_text(verb, "view") {
            Ok(CaseFileAction::ViewAll)
        } else {
            let mut m = String::from_str("-");
            m.append(verb);
            Err(CaseFileError::ParsingError(m))
        }
    }
}

/// The reply to a created case file.
pub open spec fn created_text(name: Seq<char>, id: u64) -> Seq<char> {
    "Successfully created file for '"@ + name + "'. Access it with id `"@ + decimal(id as nat) + "`."@
}

/// The items, each followed by a newline and a quote mark.
pub open spec fn quoted_items(items: Seq<Seq<char>>) -> Seq<char>
    decreases items.len(),
{
    if items.len() == 0 {
        Seq::empty()
    } else {
        quoted_items(items.drop_last()) + items.last() + "\n> "@
    }
}

/// A case file read out: its id and name, then its items.
pub open spec fn summary_text(id: u64, name: Seq<char>, items: Seq<Seq<char>>) -> Seq<char> {
    "Case #"@ + decimal(id as nat) + " => "@ + name + "\n"@ + quoted_items(items)
}

pub open spec fn resolution_text(resolved: bool) -> Seq<char> {
    if resolved {
        "resolved"@
    } else {
        "unresolved"@
    }
}

/// One line per case file: its resolution and its name.
pub open spec fn overview_lines(files: Seq<CaseFile>) -> Seq<char>
    decreases files.len(),
{
    if files.len() == 0 {
        Seq::empty()
    } else {
        overview_lines(files.drop_last()) + "["@ + resolution_text(files.last().resolved) + "] | "@
            + files.last().name@ + "\n"@
    }
}

/// The reply to a removed item; `None` where there was no such item.
pub open spec fn removed_text(item: Option<Seq<char>>, id: u64) -> Seq<char> {
    "Removed item `"@ + (match item {
        Some(i) => i,
        None => "[unable to find item]"@,
    }) + "` from Casefile #"@ + decimal(id as nat) + "."@
}

impl CaseFileAction {
    /// The reply to a case file created under `id`.
    pub fn created_reply(name: &str, id: u64) -> (r: String)
        ensures
            r@ == created_text(name@, id),
    {
        let mut r = String::from_str("Successfully created file for '");
        r.append(name);
        r.append("'. Access it with id `");
        push_decimal(&mut r, id);
        r.append("`.");
        r
    }

    /// The reply to an item written to case file `id`.
    pub fn added_reply(id: u64) -> (r: String)
        ensures
            r@ == "Successfully wrote new item to Casefile #"@ + decimal(id as nat) + "!"@,
    {
        let mut r = String::from_str("Successfully wrote new item to Casefile #");
        push_decimal(&mut r, id);
        r.append("!");
        r
    }

    /// The reply to an item removed from case file `id`, `None` where there
    /// was no such item.
    pub fn removed_reply(item: &Option<String>, id: u64) -> (r: String)
        ensures
            r@ == removed_text(
                match item {
                    Some(i) => Some(i@),
                    None => None,
                },
                id,
            ),
    {
        let mut r = String::from_str("Removed item `");
        match item {
            Some(i) => r.append(i.as_str()),
            None => r.append("[unable to find item]"),
        }
        r.append("` from Casefile #");
        push_decimal(&mut r, id);
        r.append(".");
        r
    }

    /// The reply to case file `id` deleted.
    pub fn deleted_reply(id: u64) -> (r: String)
        ensures
            r@ == "Successfully removed Casefile #"@ + decimal(id as nat) + "."@,
    {
        let mut r = String::from_str("Successfully removed Casefile #");
        push_decimal(&mut r, id);
        r.append(".");
        r
    }

    /// All case files, one line each.
    pub fn overview(files: &Vec<CaseFile>) -> (r: String)
        ensures
            r@ == "Here's all the casefiles: \n"@ + overview_lines(files@),
    {
        let mut r = String::from_str("Here's all the casefiles: \n");
        let mut i: usize = 0;
        while i < files.len()
            invariant
                i <= files@.len(),
                r@ == "Here's all the casefiles: \n"@ + overview_lines(files@.subrange(0, i as int)),
            decreases files@.len() - i,
        {
            let ghost part = files@.subrange(0, i + 1);
            assert(part.drop_last() == files@.subrange(0, i as int));
            let f = &files[i];
            r.append("[");
            let res = f.resolution();
            r.append(res.as_str());
            r.append("] | ");
            r.append(f.name.as_str());
            r.append("\n");
            i = i + 1;
        }
        assert(files@.subrange(0, files@.len() as int) == files@);
        r
    }
}

impl CaseFile {
    /// This case file read out under `id`: its name, then each item.
    pub fn summary(&self, id: u64) -> (r: String)
        ensures
            r@ == summary_text(id, self.name@, string_views(self.items@)),
    {
        let ghost items = string_views(self.items@);
        let mut r = String::from_str("Case #");
        push_decimal(&mut r, id);
        r.append(" => ");
        r.append(self.name.as_str());
        r.append("\n");
        let ghost head = r@;
        let mut i: usize = 0;
        while i < self.items.len()
            invariant
                i <= self.items@.len(),
                items == string_views(self.items@),
                r@ == head + quoted_items(items.subrange(0, i as int)),
            decreases self.items@.len() - i,
        {
            let ghost part = items.subrange(0, i + 1);
            assert(part.drop_last() == items.subrange(0, i as int));
            r.append(self.items[i].as_str());
            r.append("\n> ");
            i = i + 1;
        }
        assert(items.subrange(0, self.items@.len() as int) == items);
        r
    }

    /// Removes the item at `index`, or the last item where none is given,
    /// and returns it; `None`, and nothing removed, where there is no such
    /// item.
    pub fn remove_item(&mut self, index: Option<u64>) -> (r: Option<String>)
        ensures
            final(self).name == old(self).name,
            final(self).resolved == old(self).resolved,
            ({
                let items = string_views(old(self).items@);
                let at: int = match index {
                    Some(i) => i as int,
                    None => items.len() - 1,
                };
                if 0 <= at < items.len() {
                    r matches Some(item) && item@ == items[at] && string_views(final(self).items@)
                        == items.remove(at)
                } else {
                    r is None && final(self).items@ == old(self).items@
                }
            }),
    {
        let n = self.items.len();
        let at: usize = match index {
            Some(i) => {
                if i >= n as u64 {
                    return None;
                }
                i as usize
            },
            None => {
                if n == 0 {
                    return None;
                }
                n - 1
            },
        };
        let item = self.items.remove(at);
        assert(string_views(self.items@) == string_views(old(self).items@).remove(at as int));
        Some(item)
    }
}

/// The index of the first `c` in `s`, or -1 where there is none.
pub open spec fn first_index_of(s: Seq<char>, c: char) -> int
    decreases s.len(),
{
    if s.len() == 0 {
        -1
    } else if s[0] == c {
        0
    } else {
        let k = first_index_of(s.drop_first(), c);
        if k < 0 {
            -1
        } else {
            k + 1
        }
    }
}

/// Whether the item marker "\n- " starts at `i` in `s`.
pub open spec fn marker_at(s: Seq<char>, i: int) -> bool {
    0 <= i && i + 3 <= s.len() && s[i] == '\n' && s[i + 1] == '-' && s[i + 2] == ' '
}

/// The index of the first item marker in `s`, or -1 where there is none.
pub open spec fn first_marker(s: Seq<char>) -> int
    decreases s.len(),
{
    if s.len() < 3 {
        -1
    } else if marker_at(s, 0) {
        0
    } else {
        let k = first_marker(s.drop_first());
        if k < 0 {
            -1
        } else {
            k + 1
        }
    }
}

/// The pieces of `s` between item markers, as `str::split("\n- ")` yields them.
pub open spec fn split_items(s: Seq<char>) -> Seq<Seq<char>>
    decreases s.len(),
{
    let k = first_marker(s);
    if k < 0 || k + 3 > s.len() {
        seq![s]
    } else {
        seq![s.take(k)] + split_items(s.skip(k + 3))
    }
}

/// The case file that a text `name|resolution\nitems` holds, its items
/// parted by "\n- "; or why the text holds none.
pub open spec fn parse_case_file(s: Seq<char>) -> Result<(Seq<char>, bool, Seq<Seq<char>>), Seq<char>> {
    let p = first_index_of(s, '|');
    if p < 0 {
        Err("No specification for resolution status"@)
    } else {
        let rest = s.skip(p + 1);
        let q = first_index_of(rest, '\n');
        if q < 0 {
            Err("Must be a newline after the resolution status"@)
        } else if rest.take(q) == "resolved"@ {
            Ok((s.take(p), true, split_items(rest.skip(q + 1))))
        } else if rest.take(q) == "unresolved"@ {
            Ok((s.take(p), false, split_items(rest.skip(q + 1))))
        } else {
            Err("resolution does not match 'resolved' or 'unresolved'"@)
        }
    }
}

proof fn lemma_first_index_of(s: Seq<char>, c: char, k: int)
    requires
        0 <= k <= s.len(),
        forall|j: int| 0 <= j < k ==> #[trigger] s[j] != c,
        k == s.len() || s[k] == c,
    ensures
        first_index_of(s, c) == (if k == s.len() {
            -1
        } else {
            k
        }),
    decreases k,
{
    if k > 0 {
        let t = s.drop_first();
        assert forall|j: int| 0 <= j < k - 1 implies #[trigger] t[j] != c by {
            assert(t[j] == s[j + 1]);
        }
        if k < s.len() {
            assert(t[k - 1] == s[k]);
        }
        lemma_first_index_of(t, c, k - 1);
    }
}

proof fn lemma_first_marker(s: Seq<char>, k: int)
    requires
        0 <= k,
        forall|j: int| 0 <= j < k ==> !#[trigger] marker_at(s, j),
        marker_at(s, k) || k + 3 > s.len(),
    ensures
        first_marker(s) == (if marker_at(s, k) {
            k
        } else {
            -1
        }),
    decreases k,
{
    if k > 0 && s.len() >= 3 {
        let t = s.drop_first();
        assert(!marker_at(s, 0));
        assert forall|j: int| 0 <= j < k - 1 implies !#[trigger] marker_at(t, j) by {
            assert(!marker_at(s, j + 1));
            if j + 3 <= t.len() {
                assert(t[j] == s[j + 1] && t[j + 1] == s[j + 2] && t[j + 2] == s[j + 3]);
            }
        }
        if marker_at(s, k) {
            assert(t[k - 1] == s[k] && t[k] == s[k + 1] && t[k + 1] == s[k + 2]);
        }
        lemma_first_marker(t, k - 1);
        if marker_at(s, k) {
            assert(marker_at(t, k - 1));
        } else {
            assert(!marker_at(t, k - 1));
        }
    }
}

/// The index of the first `c` in `s` at or after `from`, if any.
fn find_char(s: &str, from: usize, c: char) -> (r: Option<usize>)
    requires
        from <= s@.len(),
    ensures
        first_index_of(s@.skip(from as int), c) < 0 ==> r is None,
        first_index_of(s@.skip(from as int), c) >= 0 ==> r == Some(
            (from + first_index_of(s@.skip(from as int), c)) as usize,
        ),
        r matches Some(k) ==> from <= k < s@.len(),
        first_index_of(s@.skip(from as int), c) < s@.len() - from,
{
    let ghost t = s@.skip(from as int);
    let n = s.unicode_len();
    let mut i = from;
    while i < n
        invariant
            from <= i <= n,
            n == s@.len(),
            t == s@.skip(from as int),
            forall|j: int| 0 <= j < i - from ==> #[trigger] t[j] != c,
        decreases n - i,
    {
        if s.get_char(i) == c {
            proof {
                lemma_first_index_of(t, c, i - from);
            }
            return Some(i);
        }
        assert(t[i - from] == s@[i as int]);
        i = i + 1;
    }
    proof {
        lemma_first_index_of(t, c, t.len() as int);
    }
    None
}

/// Whether the item marker starts at `i` in `s`.
fn marker_here(s: &str, i: usize) -> (r: bool)
    requires
        i <= s@.len(),
    ensures
        r == marker_at(s@, i as int),
{
    let n = s.unicode_len();
    n >= 3 && i <= n - 3 && s.get_char(i) == '\n' && s.get_char(i + 1) == '-' && s.get_char(i + 2) == ' '
}

/// Splits `s[from..]` at each item marker.
fn split_items_from(s: &str, from: usize) -> (r: Vec<String>)
    requires
        from <= s@.len(),
    ensures
        string_views(r@) == split_items(s@.skip(from as int)),
{
    let n = s.unicode_len();
    let mut r: Vec<String> = Vec::new();
    let mut start = from;
    let mut i = from;
    assert(string_views(r@) == Seq::<Seq<char>>::empty());
    while i < n
        invariant
            from <= start <= i <= n,
            n == s@.len(),
            split_items(s@.skip(from as int)) == string_views(r@) + split_items(
                s@.skip(start as int),
            ),
            forall|j: int| 0 <= j < i - start ==> !#[trigger] marker_at(s@.skip(start as int), j),
        decreases n - i,
    {
        let ghost t = s@.skip(start as int);
        if marker_here(s, i) {
            proof {
                assert(marker_at(t, i - start)) by {
                    assert(t[i - start] == s@[i as int]);
                    assert(t[i - start + 1] == s@[i + 1]);
                    assert(t[i - start + 2] == s@[i + 2]);
                }
                lemma_first_marker(t, i - start);
                assert(t.take(i - start) == s@.subrange(start as int, i as int));
                assert(t.skip(i - start + 3) == s@.skip(i + 3));
            }
            let piece = String::from_str(s.substring_char(start, i));
            r.push(piece);
            assert(string_views(r@) == string_views(r@.drop_last()).push(piece@));
            start = i + 3;
            i = i + 3;
        } else {
            proof {
                assert(!marker_at(t, i - start)) by {
                    if marker_at(t, i - start) {
                        assert(t[i - start] == s@[i as int]);
                        assert(t[i - start + 1] == s@[i + 1]);
                        assert(t[i - start + 2] == s@[i + 2]);
                    }
                }
            }
            i = i + 1;
        }
    }
    let ghost t = s@.skip(start as int);
    proof {
        if t.len() >= 3 {
            assert forall|j: int| 0 <= j < t.len() - 2 implies !#[trigger] marker_at(t, j) by {
                if j >= i - start {
                    assert(false);
                }
            }
        }
        let k = if t.len() >= 3 {
            t.len() - 2
        } else {
            0
        };
        lemma_first_marker(t, k);
        assert(s@.subrange(start as int, n as int) == t);
    }
    let piece = String::from_str(s.substring_char(start, n));
    r.push(piece);
    assert(string_views(r@) == string_views(r@.drop_last()).push(piece@));
    r
}

impl CaseFile {
    /// Reads a case file written as `name|resolution`, a newline, then its
    /// items parted by "\n- ".
    pub fn parse(s: &str) -> (r: Result<CaseFile, CaseFileError>)
        ensures
            parse_case_file(s@) matches Ok((name, resolved, items)) ==> (r matches Ok(c)
                && c.name@ == name && c.resolved == resolved && string_views(c.items@) == items),
            parse_case_file(s@) matches Err(m) ==> (r matches Err(CaseFileError::ParsingError(e))
                && e@ == m),
    {
        let n = s.unicode_len();
        assert(s@.skip(0) == s@);
        let p = match find_char(s, 0, '|') {
            Some(p) => p,
            None => {
                return Err(
                    CaseFileError::ParsingError(
                        String::from_str("No specification for resolution status"),
                    ),
                );
            },
        };
        let ghost rest = s@.skip(p + 1);
        assert(first_index_of(s@, '|') == p as int);
        let q = match find_char(s, p + 1, '\n') {
            Some(q) => q,
            None => {
                assert(first_index_of(rest, '\n') < 0);
                return Err(
                    CaseFileError::ParsingError(
                        String::from_str("Must be a newline after the resolution status"),
                    ),
                );
            },
        };
        let resolution = s.substring_char(p + 1, q);
        assert(resolution@ == rest.take(q - p - 1));
        assert(rest.skip(q - p) == s@.skip(q + 1));
        let name = String::from_str(s.substring_char(0, p));
        assert(name@ == s@.take(p as int));
        let resolved = if crate::text::same_text(resolution, "resolved") {
            true
        } else if crate::text::same_text(resolution, "unresolved") {
            false
        } else {
            return Err(
                CaseFileError::ParsingError(
                    String::from_str("resolution does not match 'resolved' or 'unresolved'"),
                ),
            );
        };
        let items = split_items_from(s, q + 1);
        Ok(CaseFile { name, resolved, items })
    }
}

/// The items, each followed by a newline.
pub open spec fn item_lines(items: Seq<Seq<char>>) -> Seq<char>
    decreases items.len(),
{
    if items.len() == 0 {
        Seq::empty()
    } else {
        item_lines(items.drop_last()) + items.last() + "\n"@
    }
}

impl CaseFile {
    /// This case file as text: `name|resolution`, a newline, then each item
    /// on a line of its own.
    pub fn to_text(&self) -> (r: String)
        ensures
            r@ == self.name@ + "|"@ + resolution_text(self.resolved) + "\n"@ + item_lines(
                string_views(self.items@),
            ),
    {
        let ghost items = string_views(self.items@);
        let mut r = String::from_str(self.name.as_str());
        r.append("|");
        let res = self.resolution();
        r.append(res.as_str());
        r.append("\n");
        let ghost head = r@;
        let mut i: usize = 0;
        while i < self.items.len()
            invariant
                i <= self.items@.len(),
                items == string_views(self.items@),
                r@ == head + item_lines(items.subrange(0, i as int)),
            decreases self.items@.len() - i,
        {
            let ghost part = items.subrange(0, i + 1);
            assert(part.drop_last() == items.subrange(0, i as int));
            r.append(self.items[i].as_str());
            r.append("\n");
            i = i + 1;
        }
        assert(items.subrange(0, self.items@.len() as int) == items);
        r
    }
}

impl CaseFileError {
    /// What went wrong, as text.
    pub fn message(&self) -> (r: String)
        ensures
            self matches CaseFileError::ParsingError(e) && r@ == "parsing error: "@ + e@,
    {
        match self {
            CaseFileError::ParsingError(e) => {
                let mut r = String::from_str("parsing error: ");
                r.append(e.as_str());
                r
            },
        }
    }
}

impl std::str::FromStr for CaseFile {
    type Err = CaseFileError;

    fn from_str(s: &str) -> Result<CaseFile, CaseFileError> {
        CaseFile::parse(s)
    }
}

impl std::str::FromStr for CaseFileAction {
    type Err = CaseFileError;

    fn from_str(s: &str) -> Result<CaseFileAction, CaseFileError> {
        CaseFileAction::parse(s)
    }
}

} // verus!
