//! Paths as text, with `/` as the only separator.
//!
//! A path is a sequence of characters. Its components are the stretches
//! between separators; an empty component and a `.` component name nothing
//! and are skipped, a `..` component is kept as it is. Nothing here looks at
//! a filesystem, and nothing folds `..` into what precedes it.

use vstd::prelude::*;
use vstd::string::*;

verus! {

/// A path is absolute when it begins with the separator.
pub open spec fn is_absolute(p: Seq<char>) -> bool {
    p.len() > 0 && p[0] == '/'
}

/// `token` adjoined to `base`: an absolute token replaces the base, any
/// other token follows it, after a separator unless the base is empty or
/// already ends in one.
pub open spec fn join_spec(base: Seq<char>, token: Seq<char>) -> Seq<char> {
    if is_absolute(token) {
        token
    } else if base.len() == 0 || base.last() == '/' {
        base + token
    } else {
        base + seq!['/'] + token
    }
}

/// Where `p[..end]` ends once the separators and `.` components at its end
/// are dropped. Nothing before `start` is dropped.
pub open spec fn trimmed_end(p: Seq<char>, start: int, end: int) -> int
    decreases end,
{
    if end <= start || start < 0 || end > p.len() {
        start
    } else if p[end - 1] == '/' {
        trimmed_end(p, start, end - 1)
    } else if p[end - 1] == '.' && end - 1 == start {
        start
    } else if p[end - 1] == '.' && p[end - 2] == '/' {
        trimmed_end(p, start, end - 2)
    } else {
        end
    }
}

/// Where the component that ends at `end` begins: just after the last
/// separator of `p[start..end]`, or at `start` if there is none.
pub open spec fn component_start(p: Seq<char>, start: int, end: int) -> int
    decreases end,
{
    if end <= start || start < 0 || end > p.len() {
        start
    } else if p[end - 1] == '/' {
        end
    } else {
        component_start(p, start, end - 1)
    }
}

/// The parent of an absolute path: the path without its last component.
/// The root, and whatever names nothing below it, has none.
pub open spec fn parent_spec(p: Seq<char>) -> Option<Seq<char>> {
    let end = trimmed_end(p, 1, p.len() as int);
    if end <= 1 {
        None
    } else {
        let first = component_start(p, 1, end);
        let cut = if first > 1 { first - 1 } else { 1 };
        Some(p.subrange(0, trimmed_end(p, 1, cut)))
    }
}

/// The last component of a path, unless the path has none or ends in `..`.
pub open spec fn file_name_spec(p: Seq<char>) -> Option<Seq<char>> {
    let end = trimmed_end(p, 0, p.len() as int);
    if end <= 0 {
        None
    } else {
        let name = p.subrange(component_start(p, 0, end), end);
        if name == seq!['.', '.'] {
            None
        } else {
            Some(name)
        }
    }
}

/// The index of the last `.` in `name[..end]`, or -1.
pub open spec fn last_dot(name: Seq<char>, end: int) -> int
    decreases end,
{
    if end <= 0 || end > name.len() {
        -1
    } else if name[end - 1] == '.' {
        end - 1
    } else {
        last_dot(name, end - 1)
    }
}

/// The extension of a file name: what follows its last `.`, provided that
/// dot is not the first character. The name `..` has none.
pub open spec fn name_extension(name: Seq<char>) -> Option<Seq<char>> {
    let dot = last_dot(name, name.len() as int);
    if dot <= 0 || name == seq!['.', '.'] {
        None
    } else {
        Some(name.subrange(dot + 1, name.len() as int))
    }
}

/// The extension of the file that a path names.
pub open spec fn extension_spec(p: Seq<char>) -> Option<Seq<char>> {
    match file_name_spec(p) {
        Some(name) => name_extension(name),
        None => None,
    }
}

/// A name is hidden when it begins with a dot.
pub open spec fn is_hidden_name(name: Seq<char>) -> bool {
    name.len() > 0 && name[0] == '.'
}

/// What a navigation token leads to from `base`: `..` is the parent, or
/// `base` itself where there is none; any other token is adjoined as it
/// is, whatever it holds.
pub open spec fn resolve_spec(base: Seq<char>, token: Seq<char>) -> Seq<char> {
    if token == seq!['.', '.'] {
        match parent_spec(base) {
            Some(parent) => parent,
            None => base,
        }
    } else {
        join_spec(base, token)
    }
}

/// Joining keeps a path absolute.
pub proof fn lemma_join_absolute(base: Seq<char>, token: Seq<char>)
    requires
        is_absolute(base),
    ensures
        is_absolute(join_spec(base, token)),
{
}

/// What is dropped at the end never reaches below `start`.
pub proof fn lemma_trimmed_end_bounds(p: Seq<char>, start: int, end: int)
    requires
        0 <= start <= end <= p.len(),
    ensures
        start <= trimmed_end(p, start, end) <= end,
    decreases end,
{
    if end > start {
        if p[end - 1] == '/' {
            lemma_trimmed_end_bounds(p, start, end - 1);
        } else if p[end - 1] == '.' && end - 1 == start {
        } else if p[end - 1] == '.' && p[end - 2] == '/' {
            lemma_trimmed_end_bounds(p, start, end - 2);
        }
    }
}

/// A component begins between `start` and its end.
pub proof fn lemma_component_start_bounds(p: Seq<char>, start: int, end: int)
    requires
        0 <= start <= end <= p.len(),
    ensures
        start <= component_start(p, start, end) <= end,
    decreases end,
{
    if end > start && p[end - 1] != '/' {
        lemma_component_start_bounds(p, start, end - 1);
    }
}

/// The parent of an absolute path is absolute and no longer than the path.
pub proof fn lemma_parent_absolute(p: Seq<char>)
    requires
        is_absolute(p),
    ensures
        match parent_spec(p) {
            Some(parent) => is_absolute(parent) && parent.len() < p.len(),
            None => true,
        },
{
    let end = trimmed_end(p, 1, p.len() as int);
    lemma_trimmed_end_bounds(p, 1, p.len() as int);
    if end > 1 {
        lemma_component_start_bounds(p, 1, end);
        let first = component_start(p, 1, end);
        let cut = if first > 1 { first - 1 } else { 1 };
        lemma_trimmed_end_bounds(p, 1, cut);
        lemma_trimmed_end_settled(p, 1, p.len() as int);
    }
}

/// Where trimming stops above `start`, a component ends: trimming again
/// changes nothing, and that component is not empty.
pub proof fn lemma_trimmed_end_settled(p: Seq<char>, start: int, end: int)
    requires
        0 <= start <= end <= p.len(),
    ensures
        ({
            let t = trimmed_end(p, start, end);
            t > start ==> trimmed_end(p, start, t) == t && component_start(p, start, t) < t
        }),
    decreases end,
{
    if end > start {
        if p[end - 1] == '/' {
            lemma_trimmed_end_settled(p, start, end - 1);
        } else if p[end - 1] == '.' && end - 1 == start {
        } else if p[end - 1] == '.' && p[end - 2] == '/' {
            lemma_trimmed_end_settled(p, start, end - 2);
        } else {
            lemma_component_start_bounds(p, start, end - 1);
        }
    }
}

/// Resolving a token from an absolute directory gives an absolute path.
pub proof fn lemma_resolve_absolute(base: Seq<char>, token: Seq<char>)
    requires
        is_absolute(base),
    ensures
        is_absolute(resolve_spec(base, token)),
{
    lemma_parent_absolute(base);
}

/// From a directory without a parent, `..` leads nowhere else.
pub proof fn lemma_parent_of_root_is_root(root: Seq<char>)
    requires
        parent_spec(root) is None,
    ensures
        resolve_spec(root, seq!['.', '.']) == root,
{
}

/// The filesystem root has no parent.
pub proof fn lemma_root_has_no_parent()
    ensures
        parent_spec(seq!['/']) is None,
        resolve_spec(seq!['/'], seq!['.', '.']) == seq!['/'],
{
    let p = seq!['/'];
    assert(trimmed_end(p, 1, 1) == 1);
}

/// A name that stands for one component: not empty, without a separator,
/// and neither `.` nor `..`.
pub open spec fn is_component_name(name: Seq<char>) -> bool {
    &&& name.len() > 0
    &&& forall|i: int| 0 <= i < name.len() ==> name[i] != '/'
    &&& name != seq!['.']
    &&& name != seq!['.', '.']
}

/// An absolute path is tidy when it ends in a component, or is the root
/// alone: nothing would be trimmed from its end.
pub open spec fn is_tidy(p: Seq<char>) -> bool {
    is_absolute(p) && trimmed_end(p, 1, p.len() as int) == p.len()
}

/// Trimming looks at nothing behind `end`.
pub proof fn lemma_trimmed_end_local(p: Seq<char>, q: Seq<char>, start: int, end: int)
    requires
        0 <= start <= end <= p.len(),
        end <= q.len(),
        forall|i: int| 0 <= i < end ==> p[i] == q[i],
    ensures
        trimmed_end(p, start, end) == trimmed_end(q, start, end),
    decreases end,
{
    if end > start {
        if p[end - 1] == '/' {
            lemma_trimmed_end_local(p, q, start, end - 1);
        } else if p[end - 1] == '.' && end - 1 == start {
        } else if p[end - 1] == '.' && p[end - 2] == '/' {
            lemma_trimmed_end_local(p, q, start, end - 2);
        }
    }
}

/// A component that holds no separator begins where the separator before
/// it ends.
proof fn lemma_component_start_of_name(p: Seq<char>, start: int, first: int, end: int)
    requires
        0 <= start <= first <= end <= p.len(),
        first == start || p[first - 1] == '/',
        forall|i: int| first <= i < end ==> p[i] != '/',
    ensures
        component_start(p, start, end) == first,
    decreases end - first,
{
    if end > first {
        lemma_component_start_of_name(p, start, first, end - 1);
    }
}

/// What joining a component name to a directory gives: the name stands at
/// the end, behind a separator, and nothing of it is trimmed.
proof fn lemma_join_shape(dir: Seq<char>, name: Seq<char>)
    requires
        is_absolute(dir),
        is_component_name(name),
    ensures
        ({
            let p = join_spec(dir, name);
            let first = p.len() - name.len();
            &&& first >= 1
            &&& p[first - 1] == '/'
            &&& p.subrange(first, p.len() as int) == name
            &&& trimmed_end(p, 0, p.len() as int) == p.len()
            &&& trimmed_end(p, 1, p.len() as int) == p.len()
            &&& component_start(p, 0, p.len() as int) == first
            &&& component_start(p, 1, p.len() as int) == first
            &&& (dir.last() == '/' ==> p == dir + name)
            &&& (dir.last() != '/' ==> p == dir + seq!['/'] + name)
        }),
{
    let p = join_spec(dir, name);
    let len = p.len() as int;
    let first = len - name.len();
    assert(name[0] != '/');
    assert(p.subrange(first, len) =~= name);
    assert forall|i: int| first <= i < len implies p[i] != '/' by {
        assert(p[i] == name[i - first]);
    }
    assert(p[len - 1] == name[name.len() - 1]);
    if p[len - 1] == '.' {
        if name.len() == 1 {
            assert(name =~= seq!['.']);
        } else {
            assert(p[len - 2] == name[name.len() - 2]);
        }
    }
    lemma_component_start_of_name(p, 0, first, len);
    lemma_component_start_of_name(p, 1, first, len);
}

/// The file name of a child is the name under which it was joined.
pub proof fn lemma_file_name_of_child(dir: Seq<char>, name: Seq<char>)
    requires
        is_absolute(dir),
        is_component_name(name),
    ensures
        file_name_spec(join_spec(dir, name)) == Some(name),
{
    lemma_join_shape(dir, name);
}

/// The parent of a child of a tidy directory is that directory.
pub proof fn lemma_parent_of_child(dir: Seq<char>, name: Seq<char>)
    requires
        is_tidy(dir),
        is_component_name(name),
    ensures
        parent_spec(join_spec(dir, name)) == Some(dir),
{
    lemma_join_shape(dir, name);
    let p = join_spec(dir, name);
    let first = p.len() - name.len();
    if dir.len() == 1 {
        assert(first == 1);
        assert(p.subrange(0, 1) =~= dir);
    } else {
        if dir.last() == '/' {
            lemma_trimmed_end_bounds(dir, 1, dir.len() - 1);
        }
        assert(first == dir.len() + 1);
        lemma_trimmed_end_local(p, dir, 1, dir.len() as int);
        assert(p.subrange(0, dir.len() as int) =~= dir);
    }
}

/// Entering a child of a tidy directory and leaving it again leads back.
pub proof fn lemma_enter_then_leave(dir: Seq<char>, name: Seq<char>)
    requires
        is_tidy(dir),
        is_component_name(name),
    ensures
        resolve_spec(resolve_spec(dir, name), seq!['.', '.']) == dir,
        is_tidy(resolve_spec(dir, name)),
{
    lemma_parent_of_child(dir, name);
    lemma_join_shape(dir, name);
}

/// The parent of an absolute path is tidy.
pub proof fn lemma_parent_is_tidy(p: Seq<char>)
    requires
        is_absolute(p),
    ensures
        match parent_spec(p) {
            Some(parent) => is_tidy(parent),
            None => true,
        },
{
    let end = trimmed_end(p, 1, p.len() as int);
    lemma_trimmed_end_bounds(p, 1, p.len() as int);
    if end > 1 {
        lemma_component_start_bounds(p, 1, end);
        let first = component_start(p, 1, end);
        let cut = if first > 1 { first - 1 } else { 1 };
        lemma_trimmed_end_bounds(p, 1, cut);
        lemma_trimmed_end_settled(p, 1, cut);
        let keep = trimmed_end(p, 1, cut);
        let parent = p.subrange(0, keep);
        lemma_trimmed_end_local(parent, p, 1, keep);
    }
}

/// A single character as text.
fn slash() -> (r: &'static str)
    ensures
        r@ == seq!['/'],
{
    proof {
        reveal_strlit("/");
    }
    let r = "/";
    assert(r@ =~= seq!['/']);
    r
}

/// Adjoins `token` to `base`.
pub fn join(base: &str, token: &str) -> (r: String)
    ensures
        r@ == join_spec(base@, token@),
{
    let token_len: usize = token.unicode_len();
    if token_len > 0 && token.get_char(0) == '/' {
        return token.to_owned();
    }
    let base_len: usize = base.unicode_len();
    let mut r = base.to_owned();
    if base_len > 0 && base.get_char(base_len - 1) != '/' {
        r.append(slash());
    }
    r.append(token);
    r
}

/// Drops the separators and `.` components at the end of `p[..end]`.
fn trim_end(p: &str, start: usize, end: usize) -> (r: usize)
    requires
        start <= end <= p@.len(),
    ensures
        r == trimmed_end(p@, start as int, end as int),
        start <= r <= end,
{
    let mut e: usize = end;
    let mut settled = false;
    while e > start && !settled
        invariant
            start <= e <= end <= p@.len(),
            trimmed_end(p@, start as int, e as int) == trimmed_end(p@, start as int, end as int),
            settled ==> trimmed_end(p@, start as int, e as int) == e,
        decreases e - start + (if settled { 0int } else { 1int }),
    {
        let last = p.get_char(e - 1);
        if last == '/' {
            e = e - 1;
        } else if last == '.' && e - 1 == start {
            e = start;
        } else if last == '.' && p.get_char(e - 2) == '/' {
            e = e - 2;
        } else {
            settled = true;
        }
    }
    e
}

/// Finds where the component that ends at `end` begins.
fn find_component_start(p: &str, start: usize, end: usize) -> (r: usize)
    requires
        start <= end <= p@.len(),
    ensures
        r == component_start(p@, start as int, end as int),
        start <= r <= end,
{
    let mut s: usize = end;
    while s > start && p.get_char(s - 1) != '/'
        invariant
            start <= s <= end <= p@.len(),
            component_start(p@, start as int, s as int) == component_start(
                p@,
                start as int,
                end as int,
            ),
        decreases s,
    {
        s = s - 1;
    }
    s
}

/// The last component of `p`, if it names something.
pub fn file_name(p: &str) -> (r: Option<String>)
    ensures
        match r {
            Some(name) => file_name_spec(p@) == Some(name@),
            None => file_name_spec(p@) is None,
        },
{
    let len: usize = p.unicode_len();
    let end: usize = trim_end(p, 0, len);
    if end == 0 {
        return None;
    }
    let first: usize = find_component_start(p, 0, end);
    let name = p.substring_char(first, end);
    if is_dot_dot(name) {
        None
    } else {
        Some(name.to_owned())
    }
}

/// Whether `name` is the component `..`.
pub fn is_dot_dot(name: &str) -> (r: bool)
    ensures
        r == (name@ == seq!['.', '.']),
{
    let len: usize = name.unicode_len();
    if len == 2 {
        let r = name.get_char(0) == '.' && name.get_char(1) == '.';
        assert(r == (name@ =~= seq!['.', '.']));
        r
    } else {
        false
    }
}

/// The extension of a file name.
pub fn extension_of_name(name: &str) -> (r: Option<String>)
    ensures
        match r {
            Some(ext) => name_extension(name@) == Some(ext@),
            None => name_extension(name@) is None,
        },
{
    let len: usize = name.unicode_len();
    let mut d: usize = len;
    while d > 0 && name.get_char(d - 1) != '.'
        invariant
            d <= len == name@.len(),
            last_dot(name@, d as int) == last_dot(name@, len as int),
        decreases d,
    {
        d = d - 1;
    }
    if d <= 1 || is_dot_dot(name) {
        None
    } else {
        Some(name.substring_char(d, len).to_owned())
    }
}

/// The extension of the file that `p` names.
pub fn extension(p: &str) -> (r: Option<String>)
    ensures
        match r {
            Some(ext) => extension_spec(p@) == Some(ext@),
            None => extension_spec(p@) is None,
        },
{
    match file_name(p) {
        Some(name) => extension_of_name(name.as_str()),
        None => None,
    }
}

/// Whether two texts are the same.
pub fn same_text(a: &str, b: &str) -> (r: bool)
    ensures
        r == (a@ == b@),
{
    let len: usize = a.unicode_len();
    if len != b.unicode_len() {
        return false;
    }
    let mut i: usize = 0;
    while i < len
        invariant
            i <= len == a@.len() == b@.len(),
            forall|j: int| 0 <= j < i ==> a@[j] == b@[j],
        decreases len - i,
    {
        if a.get_char(i) != b.get_char(i) {
            return false;
        }
        i = i + 1;
    }
    assert(a@ =~= b@);
    true
}

/// `text` with every occurrence of `pattern` replaced by `with`, found
/// from the left and never overlapping. An empty pattern occurs nowhere.
pub open spec fn replaced(text: Seq<char>, pattern: Seq<char>, with: Seq<char>) -> Seq<char>
    decreases text.len(),
{
    if pattern.len() == 0 || text.len() < pattern.len() {
        text
    } else if text.subrange(0, pattern.len() as int) == pattern {
        with + replaced(text.skip(pattern.len() as int), pattern, with)
    } else {
        seq![text[0]] + replaced(text.skip(1), pattern, with)
    }
}

/// Replaces every occurrence of `pattern` in `text` by `with`.
pub fn replace_all(text: &str, pattern: &str, with: &str) -> (r: String)
    ensures
        r@ == replaced(text@, pattern@, with@),
{
    let len: usize = text.unicode_len();
    let width: usize = pattern.unicode_len();
    if width == 0 {
        return text.to_owned();
    }
    let mut r = String::new();
    let mut i: usize = 0;
    assert(text@.skip(0) =~= text@);
    assert(r@ + replaced(text@, pattern@, with@) =~= replaced(text@, pattern@, with@));
    while i < len && len - i >= width
        invariant
            i <= len == text@.len(),
            0 < width == pattern@.len(),
            r@ + replaced(text@.skip(i as int), pattern@, with@) == replaced(text@, pattern@, with@),
        decreases len - i,
    {
        let ghost rest = text@.skip(i as int);
        let ghost done = r@;
        let window = text.substring_char(i, i + width);
        assert(rest.subrange(0, width as int) =~= window@);
        if same_text(window, pattern) {
            r.append(with);
            i = i + width;
            assert(rest.skip(width as int) =~= text@.skip(i as int));
            assert(done + (with@ + replaced(text@.skip(i as int), pattern@, with@)) =~= r@ + replaced(
                text@.skip(i as int),
                pattern@,
                with@,
            ));
        } else {
            let one = text.substring_char(i, i + 1);
            assert(one@ =~= seq![rest[0]]);
            r.append(one);
            i = i + 1;
            assert(rest.skip(1) =~= text@.skip(i as int));
            assert(done + (seq![rest[0]] + replaced(text@.skip(i as int), pattern@, with@)) =~= r@
                + replaced(text@.skip(i as int), pattern@, with@));
        }
    }
    let tail = text.substring_char(i, len);
    assert(tail@ =~= text@.skip(i as int));
    r.append(tail);
    r
}

/// Whether `name` begins with a dot.
pub fn is_hidden(name: &str) -> (r: bool)
    ensures
        r == is_hidden_name(name@),
{
    let len: usize = name.unicode_len();
    len > 0 && name.get_char(0) == '.'
}

/// An absolute path: text that begins with the separator.
#[derive(Debug)]
pub struct AbsolutePath {
    text: String,
}

impl View for AbsolutePath {
    type V = Seq<char>;

    closed spec fn view(&self) -> Seq<char> {
        self.text@
    }
}

impl AbsolutePath {
    #[verifier::type_invariant]
    closed spec fn absolute(&self) -> bool {
        is_absolute(self.text@)
    }

    /// Accepts `text` exactly when it is absolute.
    pub fn new(text: &str) -> (r: Option<AbsolutePath>)
        ensures
            match r {
                Some(path) => is_absolute(text@) && path@ == text@,
                None => !is_absolute(text@),
            },
    {
        let len: usize = text.unicode_len();
        if len > 0 && text.get_char(0) == '/' {
            Some(AbsolutePath { text: text.to_owned() })
        } else {
            None
        }
    }

    /// The filesystem root.
    pub fn root() -> (r: AbsolutePath)
        ensures
            r@ == seq!['/'],
    {
        AbsolutePath { text: slash().to_owned() }
    }

    /// The path as text.
    pub fn as_str(&self) -> (r: &str)
        ensures
            r@ == self@,
            is_absolute(r@),
    {
        proof {
            use_type_invariant(self);
        }
        self.text.as_str()
    }

    /// A copy of the path.
    pub fn duplicate(&self) -> (r: AbsolutePath)
        ensures
            r@ == self@,
    {
        proof {
            use_type_invariant(self);
        }
        AbsolutePath { text: self.text.clone() }
    }

    /// The path without its last component, if it has one.
    pub fn parent(&self) -> (r: Option<AbsolutePath>)
        ensures
            match r {
                Some(parent) => parent_spec(self@) == Some(parent@),
                None => parent_spec(self@) is None,
            },
    {
        proof {
            use_type_invariant(self);
            lemma_parent_absolute(self@);
        }
        let p = self.text.as_str();
        let len: usize = p.unicode_len();
        let end: usize = trim_end(p, 1, len);
        if end <= 1 {
            return None;
        }
        let first: usize = find_component_start(p, 1, end);
        let cut: usize = if first > 1 { first - 1 } else { 1 };
        let keep: usize = trim_end(p, 1, cut);
        Some(AbsolutePath { text: p.substring_char(0, keep).to_owned() })
    }

    /// `token` adjoined to this path.
    pub fn join(&self, token: &str) -> (r: AbsolutePath)
        ensures
            r@ == join_spec(self@, token@),
    {
        proof {
            use_type_invariant(self);
        }
        AbsolutePath { text: join(self.text.as_str(), token) }
    }

    /// Where a navigation token leads from this directory.
    pub fn resolve(&self, token: &str) -> (r: AbsolutePath)
        ensures
            r@ == resolve_spec(self@, token@),
    {
        if is_dot_dot(token) {
            match self.parent() {
                Some(parent) => parent,
                None => self.duplicate(),
            }
        } else {
            self.join(token)
        }
    }
}

} // verus!
