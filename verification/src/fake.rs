//! Create "fake" directories and files for testing purposes.
//!
//! A [`Fake`] is an in-memory tree of directories and files. Builder
//! functions construct it purely in memory; [`Fake::create_plan`] turns it
//! into the ordered list of filesystem operations that materializes the
//! tree under a base path, depth first and left to right.

use vstd::prelude::*;

verus! {

/// A character of the compact lowercase hexadecimal alphabet.
pub open spec fn is_lower_hex_digit(c: char) -> bool {
    ('0' <= c && c <= '9') || ('a' <= c && c <= 'f')
}

/// Relies on uuid::Uuid::new_v4 and uuid::fmt::Simple: a randomly generated
/// 128-bit identifier rendered as exactly 32 lowercase hexadecimal digits,
/// with no separators. Nothing is promised about which identifier comes
/// back, only the shape that every rendering has.
#[verifier::external_body]
fn fresh_uuid_hex() -> (r: String)
    ensures
        r@.len() == 32,
        forall|i: int| 0 <= i < 32 ==> is_lower_hex_digit(#[trigger] r@[i]),
{
    uuid::Uuid::new_v4().simple().to_string()
}

/// One filesystem operation of a creation plan, at specification level.
/// A path is the ordered sequence of segments below the base directory.
pub enum FsOpView {
    /// Create the directory at `path`.
    CreateDir { path: Seq<Seq<char>> },
    /// Create the file at `path` and write `contents` (nothing for an
    /// empty file) as its raw bytes.
    CreateFile { path: Seq<Seq<char>>, contents: Option<Seq<char>> },
}

/// One filesystem operation of a creation plan: create a directory, or
/// create a file and write its contents. The path is relative to the base
/// the plan was made for, one segment per element.
#[derive(Debug, PartialEq, Eq)]
pub enum FsOp {
    CreateDir { path: Vec<String> },
    CreateFile { path: Vec<String>, contents: Option<String> },
}

impl View for FsOp {
    type V = FsOpView;

    open spec fn view(&self) -> FsOpView {
        match self {
            FsOp::CreateDir { path } => FsOpView::CreateDir { path: path.deep_view() },
            FsOp::CreateFile { path, contents } => FsOpView::CreateFile {
                path: path.deep_view(),
                contents: match contents {
                    Some(c) => Some(c@),
                    None => None,
                },
            },
        }
    }
}

impl DeepView for FsOp {
    type V = FsOpView;

    open spec fn deep_view(&self) -> FsOpView {
        self.view()
    }
}

/// An in-memory description of a directory or file tree.
///
/// A `Dir` holds its single-segment name and an ordered sequence of
/// children; a `File` holds its single-segment name and optional text
/// contents (a file with no contents is created empty).
#[derive(Debug)]
pub enum Fake {
    Dir(String, Vec<Fake>),
    File(String, Option<String>),
}

/// The ordered operations that materialize `f` under the base path
/// `base`: the node itself first, then, for a directory, the plans of its
/// children in order, each rooted at the new directory.
pub open spec fn spec_plan(f: Fake, base: Seq<Seq<char>>) -> Seq<FsOpView>
    decreases f,
{
    match f {
        Fake::Dir(name, children) => seq![
            FsOpView::CreateDir { path: base.push(name@) },
        ] + spec_plan_children(children@, base.push(name@)),
        Fake::File(name, contents) => seq![
            FsOpView::CreateFile {
                path: base.push(name@),
                contents: match contents {
                    Some(c) => Some(c@),
                    None => None,
                },
            },
        ],
    }
}

/// The concatenated plans of `children`, left to right, each rooted at
/// `base`.
pub open spec fn spec_plan_children(children: Seq<Fake>, base: Seq<Seq<char>>) -> Seq<FsOpView>
    decreases children,
{
    if children.len() == 0 {
        Seq::empty()
    } else {
        spec_plan(children[0], base) + spec_plan_children(children.drop_first(), base)
    }
}

/// How many directory nodes the tree holds.
pub open spec fn spec_dir_count(f: Fake) -> nat
    decreases f,
{
    match f {
        Fake::Dir(_, children) => 1 + spec_dir_count_seq(children@),
        Fake::File(_, _) => 0,
    }
}

/// How many directory nodes a row of trees holds in all.
pub open spec fn spec_dir_count_seq(children: Seq<Fake>) -> nat
    decreases children,
{
    if children.len() == 0 {
        0
    } else {
        spec_dir_count(children[0]) + spec_dir_count_seq(children.drop_first())
    }
}

/// How many file nodes the tree holds.
pub open spec fn spec_file_count(f: Fake) -> nat
    decreases f,
{
    match f {
        Fake::Dir(_, children) => spec_file_count_seq(children@),
        Fake::File(_, _) => 1,
    }
}

/// How many file nodes a row of trees holds in all.
pub open spec fn spec_file_count_seq(children: Seq<Fake>) -> nat
    decreases children,
{
    if children.len() == 0 {
        0
    } else {
        spec_file_count(children[0]) + spec_file_count_seq(children.drop_first())
    }
}

/// How many operations of a plan create a directory.
pub open spec fn spec_count_dir_ops(plan: Seq<FsOpView>) -> nat
    decreases plan,
{
    if plan.len() == 0 {
        0
    } else {
        (if plan[0] is CreateDir {
            1nat
        } else {
            0nat
        }) + spec_count_dir_ops(plan.drop_first())
    }
}

/// How many operations of a plan create a file.
pub open spec fn spec_count_file_ops(plan: Seq<FsOpView>) -> nat
    decreases plan,
{
    if plan.len() == 0 {
        0
    } else {
        (if plan[0] is CreateFile {
            1nat
        } else {
            0nat
        }) + spec_count_file_ops(plan.drop_first())
    }
}

/// The path an operation touches.
pub open spec fn spec_op_path(op: FsOpView) -> Seq<Seq<char>> {
    match op {
        FsOpView::CreateDir { path } => path,
        FsOpView::CreateFile { path, .. } => path,
    }
}

/// A prefix of a prefix is a prefix.
proof fn lemma_prefix_transitive(a: Seq<Seq<char>>, b: Seq<Seq<char>>, c: Seq<Seq<char>>)
    requires
        a.is_prefix_of(b),
        b.is_prefix_of(c),
    ensures
        a.is_prefix_of(c),
{
    assert(a =~= c.subrange(0, a.len() as int));
}

/// A plan nests below its base: the first operation of a tree's plan
/// creates the tree's root at its name directly under the base, and every
/// path the plan touches lies strictly below the base.
pub proof fn lemma_plan_below_base(f: Fake, base: Seq<Seq<char>>)
    ensures
        spec_plan(f, base).len() > 0,
        spec_op_path(spec_plan(f, base)[0]) == base.push(f.spec_name()),
        forall|i: int|
            0 <= i < spec_plan(f, base).len() ==> base.is_prefix_of(
                #[trigger] spec_op_path(spec_plan(f, base)[i]),
            ) && spec_op_path(spec_plan(f, base)[i]).len() > base.len(),
    decreases f,
{
    let below = base.push(f.spec_name());
    assert(base.is_prefix_of(below)) by {
        assert(base =~= below.subrange(0, base.len() as int));
    }
    match f {
        Fake::Dir(name, children) => {
            lemma_plan_children_below_base(children@, below);
            let rest = spec_plan_children(children@, below);
            assert forall|i: int|
                0 <= i < spec_plan(f, base).len() implies base.is_prefix_of(
                #[trigger] spec_op_path(spec_plan(f, base)[i]),
            ) && spec_op_path(spec_plan(f, base)[i]).len() > base.len() by {
                if i > 0 {
                    assert(spec_plan(f, base)[i] == rest[i - 1]);
                    lemma_prefix_transitive(base, below, spec_op_path(rest[i - 1]));
                }
            }
        },
        Fake::File(name, contents) => {},
    }
}

/// The nesting of `lemma_plan_below_base`, for a row of children planned
/// left to right under one base.
proof fn lemma_plan_children_below_base(children: Seq<Fake>, base: Seq<Seq<char>>)
    ensures
        forall|i: int|
            0 <= i < spec_plan_children(children, base).len() ==> base.is_prefix_of(
                #[trigger] spec_op_path(spec_plan_children(children, base)[i]),
            ) && spec_op_path(spec_plan_children(children, base)[i]).len() >= base.len() + 1,
    decreases children,
{
    if children.len() == 0 {
    } else {
        let head = spec_plan(children[0], base);
        let tail = spec_plan_children(children.drop_first(), base);
        lemma_plan_below_base(children[0], base);
        lemma_plan_children_below_base(children.drop_first(), base);
        assert forall|i: int|
            0 <= i < spec_plan_children(children, base).len() implies base.is_prefix_of(
            #[trigger] spec_op_path(spec_plan_children(children, base)[i]),
        ) && spec_op_path(spec_plan_children(children, base)[i]).len() >= base.len() + 1 by {
            if i < head.len() {
                assert(spec_plan_children(children, base)[i] == head[i]);
            } else {
                assert(spec_plan_children(children, base)[i] == tail[i - head.len()]);
            }
        }
    }
}

/// Operation counts add up over concatenated plans.
proof fn lemma_count_ops_add(a: Seq<FsOpView>, b: Seq<FsOpView>)
    ensures
        spec_count_dir_ops(a + b) == spec_count_dir_ops(a) + spec_count_dir_ops(b),
        spec_count_file_ops(a + b) == spec_count_file_ops(a) + spec_count_file_ops(b),
    decreases a,
{
    if a.len() == 0 {
        assert(a + b =~= b);
    } else {
        assert((a + b).drop_first() =~= a.drop_first() + b);
        assert((a + b)[0] == a[0]);
        lemma_count_ops_add(a.drop_first(), b);
    }
}

/// Materializing a tree with N directory nodes and M file nodes performs
/// exactly N directory creations and M file creations, and nothing else.
pub proof fn lemma_plan_counts(f: Fake, base: Seq<Seq<char>>)
    ensures
        spec_count_dir_ops(spec_plan(f, base)) == spec_dir_count(f),
        spec_count_file_ops(spec_plan(f, base)) == spec_file_count(f),
        spec_plan(f, base).len() == spec_dir_count(f) + spec_file_count(f),
    decreases f,
{
    match f {
        Fake::Dir(name, children) => {
            let below = base.push(name@);
            let first = seq![FsOpView::CreateDir { path: below }];
            lemma_plan_children_counts(children@, below);
            lemma_count_ops_add(first, spec_plan_children(children@, below));
            assert(first.drop_first() =~= Seq::<FsOpView>::empty());
            assert(spec_count_dir_ops(Seq::<FsOpView>::empty()) == 0);
            assert(spec_count_file_ops(Seq::<FsOpView>::empty()) == 0);
            assert(spec_count_dir_ops(first) == 1);
            assert(spec_count_file_ops(first) == 0);
        },
        Fake::File(name, contents) => {
            assert(spec_plan(f, base).drop_first() =~= Seq::<FsOpView>::empty());
            assert(spec_count_dir_ops(Seq::<FsOpView>::empty()) == 0);
            assert(spec_count_file_ops(Seq::<FsOpView>::empty()) == 0);
        },
    }
}

/// The counts of `lemma_plan_counts`, for a row of children planned left
/// to right under one base.
proof fn lemma_plan_children_counts(children: Seq<Fake>, base: Seq<Seq<char>>)
    ensures
        spec_count_dir_ops(spec_plan_children(children, base)) == spec_dir_count_seq(children),
        spec_count_file_ops(spec_plan_children(children, base)) == spec_file_count_seq(children),
        spec_plan_children(children, base).len() == spec_dir_count_seq(children)
            + spec_file_count_seq(children),
    decreases children,
{
    if children.len() == 0 {
    } else {
        lemma_plan_counts(children[0], base);
        lemma_plan_children_counts(children.drop_first(), base);
        lemma_count_ops_add(
            spec_plan(children[0], base),
            spec_plan_children(children.drop_first(), base),
        );
    }
}

/// Text handed to the builder is materialized unchanged: the whole plan
/// for a file node is one operation that creates the file at its name
/// under the base and writes exactly the stored text (nothing, for an
/// empty file).
pub proof fn lemma_file_plan_round_trip(f: Fake, base: Seq<Seq<char>>)
    requires
        f is File,
    ensures
        spec_plan(f, base) =~= seq![
            FsOpView::CreateFile { path: base.push(f.spec_name()), contents: f.spec_contents() },
        ],
{
}

/// Planning one more child at the end of a row appends that child's plan
/// to the row's.
proof fn lemma_plan_children_push(children: Seq<Fake>, child: Fake, base: Seq<Seq<char>>)
    ensures
        spec_plan_children(children.push(child), base) == spec_plan_children(children, base)
            + spec_plan(child, base),
    decreases children,
{
    if children.len() == 0 {
        assert(children.push(child).drop_first() =~= children);
        assert(spec_plan_children(children.push(child), base) =~= spec_plan_children(
            children,
            base,
        ) + spec_plan(child, base));
    } else {
        assert(children.push(child).drop_first() =~= children.drop_first().push(child));
        lemma_plan_children_push(children.drop_first(), child, base);
        assert(spec_plan_children(children.push(child), base) =~= spec_plan_children(
            children,
            base,
        ) + spec_plan(child, base));
    }
}

impl Fake {
    /// The node's path segment.
    pub open spec fn spec_name(&self) -> Seq<char> {
        match self {
            Fake::Dir(name, _) => name@,
            Fake::File(name, _) => name@,
        }
    }

    /// The node's stored text: `Some` only for a `File` with contents.
    pub open spec fn spec_contents(&self) -> Option<Seq<char>> {
        match self {
            Fake::Dir(_, _) => None,
            Fake::File(_, contents) => match contents {
                Some(c) => Some(c@),
                None => None,
            },
        }
    }

    /// The node's children: empty for a `File`.
    pub open spec fn spec_children(&self) -> Seq<Fake> {
        match self {
            Fake::Dir(_, children) => children@,
            Fake::File(_, _) => Seq::empty(),
        }
    }

    /// Build a `Dir` node with the given name and ordered children.
    pub fn dir(name: &str, contents: Vec<Fake>) -> (r: Fake)
        ensures
            r is Dir,
            r.spec_name() == name@,
            r.spec_children() == contents@,
    {
        Fake::Dir(name.to_owned(), contents)
    }

    /// Build a `File` node with the given name and no contents.
    pub fn file(name: &str) -> (r: Fake)
        ensures
            r is File,
            r.spec_name() == name@,
            r.spec_contents() is None,
    {
        Fake::File(name.to_owned(), None)
    }

    /// The node's path segment.
    pub fn name(&self) -> (r: &str)
        ensures
            r@ == self.spec_name(),
    {
        match self {
            Fake::Dir(name, _) => name.as_str(),
            Fake::File(name, _) => name.as_str(),
        }
    }

    /// The stored text of a `File` (absent for an empty file), or nothing
    /// for a `Dir`.
    pub fn contents(&self) -> (r: Option<&str>)
        ensures
            r is Some <==> self.spec_contents() is Some,
            r matches Some(s) ==> self.spec_contents() == Some(s@),
    {
        match self {
            Fake::Dir(_, _) => None,
            Fake::File(_, contents) => match contents {
                Some(c) => Some(c.as_str()),
                None => None,
            },
        }
    }

    /// Write the given text into a `File` node when it gets created.
    ///
    /// Only files can hold byte contents, so this must not be invoked on a
    /// `Dir` node; the precondition rules that out, and an unverified
    /// caller that does it anyway is stopped by a fatal abort, never a
    /// silent success.
    pub fn fill_with(self, contents: &str) -> (r: Fake)
        requires
            self is File,
        ensures
            r is File,
            r.spec_name() == self.spec_name(),
            r.spec_contents() == Some(contents@),
    {
        match self {
            Fake::Dir(_, _) => unreached(),
            Fake::File(name, _) => Fake::File(name, Some(contents.to_owned())),
        }
    }

    /// The ordered filesystem operations that materialize this tree under
    /// the base path `base` (one segment per element): depth first, left
    /// to right, each directory before anything inside it.
    ///
    /// The caller performs the operations in the returned order; this
    /// function itself touches no filesystem.
    pub fn create_plan(&self, base: &Vec<String>) -> (r: Vec<FsOp>)
        ensures
            r.deep_view() == spec_plan(*self, base.deep_view()),
        decreases *self,
    {
        let ghost base_v: Seq<Seq<char>> = base.deep_view();
        let mut ops: Vec<FsOp> = Vec::new();
        match self {
            Fake::Dir(name, children) => {
                let mut path = base.clone();
                path.push(name.clone());
                proof {
                    assert(path.deep_view() =~= base_v.push(name@));
                }
                let ghost dir_path: Seq<Seq<char>> = path.deep_view();
                ops.push(FsOp::CreateDir { path: path.clone() });
                proof {
                    assert(ops.deep_view() =~= seq![FsOpView::CreateDir { path: dir_path }]
                        + spec_plan_children(children@.take(0), dir_path));
                }
                let mut k: usize = 0;
                while k < children.len()
                    invariant
                        *self == Fake::Dir(*name, *children),
                        k <= children.len(),
                        path.deep_view() == dir_path,
                        ops.deep_view() == seq![FsOpView::CreateDir { path: dir_path }]
                            + spec_plan_children(children@.take(k as int), dir_path),
                    decreases children.len() - k,
                {
                    let ghost ops_before = ops.deep_view();
                    proof {
                        assert(decreases_to!(*self => self->Dir_1));
                        assert(decreases_to!(self->Dir_1 => self->Dir_1@));
                        assert(decreases_to!(self->Dir_1@ => self->Dir_1@[k as int]));
                        assert(decreases_to!(*self => children@[k as int]));
                    }
                    let mut child_ops = children[k].create_plan(&path);
                    let ghost child_plan = child_ops.deep_view();
                    ops.append(&mut child_ops);
                    proof {
                        assert(ops.deep_view() =~= ops_before + child_plan);
                        lemma_plan_children_push(children@.take(k as int), children@[k as int], dir_path);
                        assert(children@.take(k as int).push(children@[k as int]) =~= children@.take(
                            k + 1,
                        ));
                        assert(ops.deep_view() =~= seq![FsOpView::CreateDir { path: dir_path }]
                            + spec_plan_children(children@.take(k + 1), dir_path));
                    }
                    k = k + 1;
                }
                proof {
                    assert(children@.take(children@.len() as int) =~= children@);
                    assert(ops.deep_view() =~= spec_plan(*self, base_v));
                }
            },
            Fake::File(name, contents) => {
                let mut path = base.clone();
                path.push(name.clone());
                proof {
                    assert(path.deep_view() =~= base_v.push(name@));
                }
                let file_contents = match contents {
                    Some(c) => Some(c.clone()),
                    None => None,
                };
                ops.push(FsOp::CreateFile { path, contents: file_contents });
                proof {
                    assert(ops.deep_view() =~= spec_plan(*self, base_v));
                }
            },
        }
        ops
    }

    /// Write a randomly generated identifier into a `File` node when it
    /// gets created: 32 lowercase hexadecimal digits, no separators.
    /// Useful e.g. to verify that a file has been copied intact.
    ///
    /// Like [`Fake::fill_with`], this must not be invoked on a `Dir` node.
    pub fn fill_with_uuid(self) -> (r: Fake)
        requires
            self is File,
        ensures
            r is File,
            r.spec_name() == self.spec_name(),
            r.spec_contents() is Some,
            r.spec_contents().unwrap().len() == 32,
            forall|i: int|
                0 <= i < 32 ==> is_lower_hex_digit(#[trigger] r.spec_contents().unwrap()[i]),
    {
        let id = fresh_uuid_hex();
        self.fill_with(id.as_str())
    }
}

} // verus!
