use vstd::prelude::*;

verus! {

/// A 160-bit object name, held as its first 128 bits and its last 32 bits
/// (both big-endian).
#[derive(Debug, Clone, Copy, PartialEq, Eq, Structural, Hash)]
pub struct ObjectId {
    pub high: u128,
    pub low: u32,
}

/// Identifier of a commit; equal by value.
#[derive(Debug, Clone, Copy, PartialEq, Eq, Structural, Hash)]
pub struct CommitId(pub ObjectId);

/// Relies on `String::push`: appends one character.
#[verifier::external_body]
pub(crate) fn push_char(s: &mut String, c: char)
    ensures
        final(s)@ == old(s)@.push(c),
{
    s.push(c)
}

/// The lower-case hexadecimal digit for `d`, 0 to 15.
pub open spec fn hex_digit(d: int) -> char {
    "0123456789abcdef"@[d]
}

/// Number of hexadecimal digits in the short form of an id.
pub const SHORT_LEN: usize = 7;

impl CommitId {
    pub fn new(high: u128, low: u32) -> (r: CommitId)
        ensures
            r.0.high == high,
            r.0.low == low,
    {
        CommitId(ObjectId { high, low })
    }

    /// The `k`-th hexadecimal digit value of the id, from the most significant.
    pub open spec fn nibble(self, k: int) -> int {
        ((self.0.high >> ((124 - 4 * k) as u128)) & 15u128) as int
    }

    /// The short form: the first seven hexadecimal digits.
    pub fn to_string(&self) -> (r: String)
        ensures
            r@.len() == SHORT_LEN,
            forall|k: int| 0 <= k < SHORT_LEN ==> r@[k] == hex_digit(#[trigger] self.nibble(k)),
    {
        let digits = "0123456789abcdef";
        proof {
            reveal_strlit("0123456789abcdef");
        }
        let mut r = String::new();
        let mut k: usize = 0;
        while k < SHORT_LEN
            invariant
                k <= SHORT_LEN,
                digits@ == "0123456789abcdef"@,
                digits@.len() == 16,
                r@.len() == k,
                forall|j: int| 0 <= j < k ==> r@[j] == hex_digit(#[trigger] self.nibble(j)),
            decreases SHORT_LEN - k,
        {
            let shift: u128 = (124 - 4 * k) as u128;
            let h: u128 = self.0.high;
            let d: u128 = (h >> shift) & 15u128;
            assert(d <= 15) by (bit_vector)
                requires
                    d == (h >> shift) & 15u128,
            ;
            push_char(&mut r, digits.get_char(d as usize));
            k = k + 1;
        }
        r
    }
}

/// A point in time with the fixed UTC offset it was recorded in.
#[derive(Debug, Clone, Copy, PartialEq, Eq, Structural, Hash)]
pub struct Timestamp {
    /// Seconds since the Unix epoch, in UTC.
    pub seconds: i64,
    /// Offset east of UTC, in seconds.
    pub offset_seconds: i32,
}

impl Timestamp {
    /// A valid offset lies strictly within one day either side of UTC.
    pub open spec fn wf(self) -> bool {
        -86_400 < self.offset_seconds < 86_400
    }

    /// The offset in whole minutes, as the repository records it.
    pub fn offset_minutes(&self) -> (r: i32)
        requires
            self.wf(),
        ensures
            self.offset_seconds >= 0 ==> r == self.offset_seconds / 60,
            self.offset_seconds < 0 ==> r == -((-self.offset_seconds) / 60),
    {
        if self.offset_seconds >= 0 {
            self.offset_seconds / 60
        } else {
            -((-self.offset_seconds) / 60)
        }
    }
}

/// An author or a committer.
#[derive(Debug, Clone)]
pub struct Person {
    pub name: String,
    pub email: String,
}

impl PartialEq for Person {
    fn eq(&self, other: &Person) -> (r: bool) {
        self.name == other.name && self.email == other.email
    }
}

impl vstd::std_specs::cmp::PartialEqSpecImpl for Person {
    open spec fn obeys_eq_spec() -> bool {
        true
    }

    open spec fn eq_spec(&self, other: &Person) -> bool {
        self.name@ == other.name@ && self.email@ == other.email@
    }
}

impl Eq for Person {
}

impl Person {
    pub fn new(name: &str, email: &str) -> (r: Person)
        ensures
            r.name@ == name@,
            r.email@ == email@,
    {
        Person { name: String::from_str(name), email: String::from_str(email) }
    }

    /// "Name <email>".
    pub fn format_full(&self) -> (r: String)
        ensures
            r@ == self.name@ + " <"@ + self.email@ + ">"@,
    {
        let mut r = self.name.clone();
        r.append(" <");
        r.append(self.email.as_str());
        r.append(">");
        r
    }

    /// The name alone, as shown in lists.
    pub fn to_string(&self) -> (r: String)
        ensures
            r@ == self.name@,
    {
        self.name.clone()
    }
}

/// A commit as loaded from the repository; never changed afterwards.
#[derive(Debug, Clone)]
pub struct CommitData {
    pub id: CommitId,
    /// Short form of the id, for display.
    pub short_hash: String,
    pub author: Person,
    pub author_date: Timestamp,
    pub committer: Person,
    pub committer_date: Timestamp,
    pub message: String,
    /// First line of the message.
    pub summary: String,
    pub parent_ids: Vec<CommitId>,
    /// The file tree, carried over unchanged by every rewrite.
    pub tree_id: ObjectId,
    /// True iff the commit has more than one parent.
    pub is_merge: bool,
}

fn copy_parent_ids(v: &Vec<CommitId>) -> (r: Vec<CommitId>)
    ensures
        r@ == v@,
{
    let mut r: Vec<CommitId> = Vec::new();
    let mut i: usize = 0;
    while i < v.len()
        invariant
            i <= v@.len(),
            r@ == v@.subrange(0, i as int),
        decreases v.len() - i,
    {
        r.push(v[i]);
        i = i + 1;
        assert(r@ =~= v@.subrange(0, i as int));
    }
    assert(r@ =~= v@);
    r
}

impl Person {
    /// An exact copy.
    pub fn duplicate(&self) -> (r: Person)
        ensures
            r == *self,
    {
        Person { name: self.name.clone(), email: self.email.clone() }
    }
}

impl CommitData {
    /// An exact copy.
    pub fn duplicate(&self) -> (r: CommitData)
        ensures
            r.id == self.id,
            r.short_hash == self.short_hash,
            r.author == self.author,
            r.author_date == self.author_date,
            r.committer == self.committer,
            r.committer_date == self.committer_date,
            r.message == self.message,
            r.summary == self.summary,
            r.parent_ids@ == self.parent_ids@,
            r.tree_id == self.tree_id,
            r.is_merge == self.is_merge,
    {
        CommitData {
            id: self.id,
            short_hash: self.short_hash.clone(),
            author: self.author.duplicate(),
            author_date: self.author_date,
            committer: self.committer.duplicate(),
            committer_date: self.committer_date,
            message: self.message.clone(),
            summary: self.summary.clone(),
            parent_ids: copy_parent_ids(&self.parent_ids),
            tree_id: self.tree_id,
            is_merge: self.is_merge,
        }
    }
}

/// Pending edits to one commit; a field that is `None` keeps its original value.
#[derive(Debug, Clone)]
pub struct CommitModifications {
    pub author_name: Option<String>,
    pub author_email: Option<String>,
    pub author_date: Option<Timestamp>,
    pub committer_name: Option<String>,
    pub committer_email: Option<String>,
    pub committer_date: Option<Timestamp>,
    pub message: Option<String>,
}

impl Default for CommitModifications {
    fn default() -> (r: CommitModifications)
        ensures
            r.is_empty_spec(),
    {
        CommitModifications::empty()
    }
}

/// `k` is where the first line of `m` ends: at the first line feed, or at
/// the end of `m` when it holds none.
pub open spec fn is_line_end(m: Seq<char>, k: int) -> bool {
    &&& 0 <= k <= m.len()
    &&& (k == m.len() || m[k] == '\n')
    &&& forall|j: int| 0 <= j < k ==> m[j] != '\n'
}

/// The first line of a text: everything before the first line feed, without a
/// carriage return that ends it.
pub open spec fn first_line(m: Seq<char>) -> Seq<char> {
    let line = m.subrange(0, choose|k: int| is_line_end(m, k));
    if line.len() > 0 && line[line.len() - 1] == '\r' {
        line.subrange(0, line.len() - 1)
    } else {
        line
    }
}

/// The value of an optional override: the override if present, else the original.
pub open spec fn effective(o: Option<String>, original: Seq<char>) -> Seq<char> {
    match o {
        Some(s) => s@,
        None => original,
    }
}

pub open spec fn count_some<T>(o: Option<T>) -> nat {
    if o is Some { 1 } else { 0 }
}

fn optional_text(o: &Option<String>) -> (r: Option<String>)
    ensures
        r == *o,
{
    match o {
        Some(s) => Some(s.clone()),
        None => None,
    }
}

impl CommitModifications {
    pub open spec fn is_empty_spec(&self) -> bool {
        &&& self.author_name is None
        &&& self.author_email is None
        &&& self.author_date is None
        &&& self.committer_name is None
        &&& self.committer_email is None
        &&& self.committer_date is None
        &&& self.message is None
    }

    pub open spec fn count_spec(&self) -> nat {
        count_some(self.author_name) + count_some(self.author_email) + count_some(self.author_date)
            + count_some(self.committer_name) + count_some(self.committer_email) + count_some(
            self.committer_date,
        ) + count_some(self.message)
    }

    /// An overlay with no field set.
    pub fn empty() -> (r: CommitModifications)
        ensures
            r.is_empty_spec(),
    {
        CommitModifications {
            author_name: None,
            author_email: None,
            author_date: None,
            committer_name: None,
            committer_email: None,
            committer_date: None,
            message: None,
        }
    }

    /// An exact copy.
    pub fn duplicate(&self) -> (r: CommitModifications)
        ensures
            r == *self,
    {
        CommitModifications {
            author_name: optional_text(&self.author_name),
            author_email: optional_text(&self.author_email),
            author_date: self.author_date,
            committer_name: optional_text(&self.committer_name),
            committer_email: optional_text(&self.committer_email),
            committer_date: self.committer_date,
            message: optional_text(&self.message),
        }
    }

    pub fn is_empty(&self) -> (r: bool)
        ensures
            r == self.is_empty_spec(),
    {
        self.author_name.is_none() && self.author_email.is_none() && self.author_date.is_none()
            && self.committer_name.is_none() && self.committer_email.is_none()
            && self.committer_date.is_none() && self.message.is_none()
    }

    pub fn has_modifications(&self) -> (r: bool)
        ensures
            r == !self.is_empty_spec(),
    {
        !self.is_empty()
    }

    pub fn effective_author_name<'a>(&'a self, original: &'a str) -> (r: &'a str)
        ensures
            r@ == effective(self.author_name, original@),
    {
        match &self.author_name {
            Some(s) => s.as_str(),
            None => original,
        }
    }

    pub fn effective_author_email<'a>(&'a self, original: &'a str) -> (r: &'a str)
        ensures
            r@ == effective(self.author_email, original@),
    {
        match &self.author_email {
            Some(s) => s.as_str(),
            None => original,
        }
    }

    pub fn effective_committer_name<'a>(&'a self, original: &'a str) -> (r: &'a str)
        ensures
            r@ == effective(self.committer_name, original@),
    {
        match &self.committer_name {
            Some(s) => s.as_str(),
            None => original,
        }
    }

    pub fn effective_committer_email<'a>(&'a self, original: &'a str) -> (r: &'a str)
        ensures
            r@ == effective(self.committer_email, original@),
    {
        match &self.committer_email {
            Some(s) => s.as_str(),
            None => original,
        }
    }

    pub fn effective_message<'a>(&'a self, original: &'a str) -> (r: &'a str)
        ensures
            r@ == effective(self.message, original@),
    {
        match &self.message {
            Some(s) => s.as_str(),
            None => original,
        }
    }

    /// First line of the edited message, or `original` when the message is not edited.
    pub fn effective_summary<'a>(&'a self, original: &'a str) -> (r: &'a str)
        ensures
            self.message is None ==> r@ == original@,
            self.message matches Some(m) ==> r@ == first_line(m@),
    {
        match &self.message {
            Some(m) => first_line_of(m.as_str()),
            None => original,
        }
    }

    /// Number of fields that are overridden.
    pub fn modification_count(&self) -> (r: usize)
        ensures
            r == self.count_spec(),
    {
        let mut count: usize = 0;
        if self.author_name.is_some() {
            count += 1;
        }
        if self.author_email.is_some() {
            count += 1;
        }
        if self.author_date.is_some() {
            count += 1;
        }
        if self.committer_name.is_some() {
            count += 1;
        }
        if self.committer_email.is_some() {
            count += 1;
        }
        if self.committer_date.is_some() {
            count += 1;
        }
        if self.message.is_some() {
            count += 1;
        }
        count
    }
}

/// The first line of `m` (see [`first_line`]).
pub fn first_line_of(m: &str) -> (r: &str)
    ensures
        r@ == first_line(m@),
{
    let n = m.unicode_len();
    let mut i: usize = 0;
    while i < n
        invariant
            n == m@.len(),
            i <= n,
            forall|j: int| 0 <= j < i ==> m@[j] != '\n',
        ensures
            is_line_end(m@, i as int),
        decreases n - i,
    {
        if m.get_char(i) == '\n' {
            break;
        }
        i = i + 1;
    }
    let ghost s = m@;
    proof {
        assert forall|k: int| is_line_end(s, k) implies k == i by {
            if k < i {
                assert(s[k] != '\n');
            }
            if i < k {
                assert(s[i as int] != '\n');
            }
        }
        assert(is_line_end(s, i as int));
    }
    if i > 0 && m.get_char(i - 1) == '\r' {
        m.substring_char(0, i - 1)
    } else {
        m.substring_char(0, i)
    }
}

/// The seven attributes of a commit that can be overridden.
#[derive(Debug, Clone, Copy, PartialEq, Eq, Structural, Hash)]
pub enum EditableField {
    AuthorName,
    AuthorEmail,
    AuthorDate,
    CommitterName,
    CommitterEmail,
    CommitterDate,
    Message,
}

/// Position of a field in the fixed order of [`EditableField::all`].
pub open spec fn field_index(f: EditableField) -> int {
    match f {
        EditableField::AuthorName => 0,
        EditableField::AuthorEmail => 1,
        EditableField::AuthorDate => 2,
        EditableField::CommitterName => 3,
        EditableField::CommitterEmail => 4,
        EditableField::CommitterDate => 5,
        EditableField::Message => 6,
    }
}

impl EditableField {
    /// All fields, in order.
    pub fn all() -> (r: Vec<EditableField>)
        ensures
            r@.len() == 7,
            forall|i: int| 0 <= i < 7 ==> field_index(#[trigger] r@[i]) == i,
    {
        vec![
            EditableField::AuthorName,
            EditableField::AuthorEmail,
            EditableField::AuthorDate,
            EditableField::CommitterName,
            EditableField::CommitterEmail,
            EditableField::CommitterDate,
            EditableField::Message,
        ]
    }

    pub open spec fn display_name_spec(self) -> Seq<char> {
        match self {
            EditableField::AuthorName => "Author Name"@,
            EditableField::AuthorEmail => "Author Email"@,
            EditableField::AuthorDate => "Author Date"@,
            EditableField::CommitterName => "Committer Name"@,
            EditableField::CommitterEmail => "Committer Email"@,
            EditableField::CommitterDate => "Committer Date"@,
            EditableField::Message => "Commit Message"@,
        }
    }

    pub fn display_name(&self) -> (r: &'static str)
        ensures
            r@ == self.display_name_spec(),
    {
        match self {
            EditableField::AuthorName => "Author Name",
            EditableField::AuthorEmail => "Author Email",
            EditableField::AuthorDate => "Author Date",
            EditableField::CommitterName => "Committer Name",
            EditableField::CommitterEmail => "Committer Email",
            EditableField::CommitterDate => "Committer Date",
            EditableField::Message => "Commit Message",
        }
    }

    pub open spec fn short_label_spec(self) -> Seq<char> {
        match self {
            EditableField::AuthorName => "Author"@,
            EditableField::AuthorEmail => "Email"@,
            EditableField::AuthorDate => "Date"@,
            EditableField::CommitterName => "Committer"@,
            EditableField::CommitterEmail => "C.Email"@,
            EditableField::CommitterDate => "C.Date"@,
            EditableField::Message => "Message"@,
        }
    }

    /// Label of the field's table column.
    pub fn short_label(&self) -> (r: &'static str)
        ensures
            r@ == self.short_label_spec(),
    {
        match self {
            EditableField::AuthorName => "Author",
            EditableField::AuthorEmail => "Email",
            EditableField::AuthorDate => "Date",
            EditableField::CommitterName => "Committer",
            EditableField::CommitterEmail => "C.Email",
            EditableField::CommitterDate => "C.Date",
            EditableField::Message => "Message",
        }
    }

    /// The following field, wrapping from the last to the first.
    pub fn next(&self) -> (r: EditableField)
        ensures
            field_index(r) == (field_index(*self) + 1) % 7,
    {
        match self {
            EditableField::AuthorName => EditableField::AuthorEmail,
            EditableField::AuthorEmail => EditableField::AuthorDate,
            EditableField::AuthorDate => EditableField::CommitterName,
            EditableField::CommitterName => EditableField::CommitterEmail,
            EditableField::CommitterEmail => EditableField::CommitterDate,
            EditableField::CommitterDate => EditableField::Message,
            EditableField::Message => EditableField::AuthorName,
        }
    }

    /// The preceding field, wrapping from the first to the last.
    pub fn prev(&self) -> (r: EditableField)
        ensures
            field_index(r) == (field_index(*self) + 6) % 7,
    {
        match self {
            EditableField::AuthorName => EditableField::Message,
            EditableField::AuthorEmail => EditableField::AuthorName,
            EditableField::AuthorDate => EditableField::AuthorEmail,
            EditableField::CommitterName => EditableField::AuthorDate,
            EditableField::CommitterEmail => EditableField::CommitterName,
            EditableField::CommitterDate => EditableField::CommitterEmail,
            EditableField::Message => EditableField::CommitterDate,
        }
    }

    pub fn is_date(&self) -> (r: bool)
        ensures
            r <==> (*self == EditableField::AuthorDate || *self == EditableField::CommitterDate),
    {
        matches!(self, EditableField::AuthorDate | EditableField::CommitterDate)
    }

    pub fn is_email(&self) -> (r: bool)
        ensures
            r <==> (*self == EditableField::AuthorEmail || *self == EditableField::CommitterEmail),
    {
        matches!(self, EditableField::AuthorEmail | EditableField::CommitterEmail)
    }

    pub fn is_multiline(&self) -> (r: bool)
        ensures
            r <==> *self == EditableField::Message,
    {
        matches!(self, EditableField::Message)
    }
}

} // verus!
