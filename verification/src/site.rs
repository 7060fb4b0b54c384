//! The post-building pipeline: classifying commits, turning qualifying
//! commits into rendered post pages, accumulating the index in receive
//! order, and rendering the index page and stylesheet.

use vstd::prelude::*;
use vstd::string::StringExecFns;

use crate::ident::{short_id, spec_short_id};
use crate::templates::{
    render_a, render_h1, render_list, render_p, render_page, spec_a, spec_h1, spec_list, spec_p,
    spec_page, spec_stylesheet, stylesheet,
};
use crate::text::{
    is_post_summary, spec_paragraphs, spec_title, split_paragraphs, starts_with_marker, title_of,
};

verus! {

/// What the repository backend reports of one commit: its identifier's
/// bytes, its summary line (absent for a commit without one), and the rest
/// of its message.
pub struct Commit {
    pub id: Vec<u8>,
    pub summary: Option<String>,
    pub body: Option<String>,
}

/// A publishable post: constructed once per qualifying commit.
pub struct Post {
    pub short_id: String,
    pub title: String,
    pub paragraphs: Vec<String>,
}

/// Whether a commit qualifies as a post: it has a summary line and that
/// line begins with the marker.
pub open spec fn spec_qualifies(c: Commit) -> bool {
    match c.summary {
        Option::Some(s) => is_post_summary(s@),
        Option::None => false,
    }
}

/// The title a qualifying commit yields: its summary with the marker
/// prefix removed.
pub open spec fn spec_post_title(c: Commit) -> Seq<char> {
    match c.summary {
        Option::Some(s) => spec_title(s@),
        Option::None => Seq::<char>::empty(),
    }
}

/// The body text of a commit, the empty text when it has none.
pub open spec fn spec_body_text(c: Commit) -> Seq<char> {
    match c.body {
        Option::Some(b) => b@,
        Option::None => Seq::<char>::empty(),
    }
}

/// Resolves one commit to a post.  Returns a post exactly when the commit
/// qualifies: its summary begins with the marker.  The post carries the
/// stripped title, the short identifier, and the body's paragraphs.
pub fn process_commit(c: &Commit) -> (r: Option<Post>)
    requires
        c.id@.len() >= 4,
    ensures
        r is Some <==> spec_qualifies(*c),
        match r {
            Option::Some(p) => p.title@ == spec_post_title(*c) && p.short_id@ == spec_short_id(
                c.id@,
            ) && p.paragraphs.deep_view() == spec_paragraphs(spec_body_text(*c)),
            Option::None => true,
        },
{
    match &c.summary {
        Option::None => Option::None,
        Option::Some(s) => {
            if !starts_with_marker(s.as_str()) {
                Option::None
            } else {
                let title = title_of(s.as_str());
                let body: &str = match &c.body {
                    Option::Some(b) => b.as_str(),
                    Option::None => "",
                };
                proof {
                    reveal_strlit("");
                    assert(body@ =~= spec_body_text(*c));
                }
                let paragraphs = split_paragraphs(body);
                let sid = short_id(&c.id);
                Option::Some(Post { short_id: sid, title, paragraphs })
            }
        },
    }
}

/// The paragraph elements of a post body, one per paragraph, in order.
pub open spec fn spec_paragraph_elems(ps: Seq<Seq<char>>) -> Seq<char>
    decreases ps.len(),
{
    if ps.len() == 0 {
        Seq::<char>::empty()
    } else {
        spec_paragraph_elems(ps.drop_last()) + spec_p(ps.last())
    }
}

/// The body fragment of a post page: a link back to the index, the title
/// as a heading, then the paragraph elements.
pub open spec fn spec_post_body_html(title: Seq<char>, ps: Seq<Seq<char>>) -> Seq<char> {
    spec_a("../index.html"@, "Back"@) + spec_h1(title) + spec_paragraph_elems(ps)
}

/// A full post page, with the stylesheet reached from the posts directory.
pub open spec fn spec_post_page(title: Seq<char>, ps: Seq<Seq<char>>) -> Seq<char> {
    spec_page(title, "../style.css"@, spec_post_body_html(title, ps))
}

/// The body fragment of the index page: a heading and the list of posts.
pub open spec fn spec_index_body_html(entries: Seq<(Seq<char>, Seq<char>)>) -> Seq<char> {
    spec_h1("Posts Index"@) + spec_list(entries)
}

/// A full index page over the given `(title, short identifier)` entries.
pub open spec fn spec_index_page(entries: Seq<(Seq<char>, Seq<char>)>) -> Seq<char> {
    spec_page("Posts Index"@, "style.css"@, spec_index_body_html(entries))
}

/// Renders a post page from its title and paragraphs.
pub fn render_post_page(title: &str, paragraphs: &Vec<String>) -> (r: String)
    ensures
        r@ == spec_post_page(title@, paragraphs.deep_view()),
{
    let mut content = render_a("../index.html", "Back");
    content.append(render_h1(title).as_str());
    let mut i: usize = 0;
    while i < paragraphs.len()
        invariant
            i <= paragraphs.len(),
            content@ == spec_a("../index.html"@, "Back"@) + spec_h1(title@)
                + spec_paragraph_elems(paragraphs.deep_view().take(i as int)),
        decreases paragraphs.len() - i,
    {
        content.append(render_p(paragraphs[i].as_str()).as_str());
        proof {
            let ps = paragraphs.deep_view();
            assert(ps.take(i + 1).drop_last() =~= ps.take(i as int));
            assert(content@ =~= spec_a("../index.html"@, "Back"@) + spec_h1(title@) + (
            spec_paragraph_elems(ps.take(i as int)) + spec_p(ps[i as int])));
        }
        i = i + 1;
    }
    proof {
        assert(paragraphs.deep_view().take(paragraphs.len() as int) =~= paragraphs.deep_view());
    }
    let r = render_page(title, "../style.css", content.as_str());
    proof {
        assert(r@ =~= spec_post_page(title@, paragraphs.deep_view()));
    }
    r
}

/// Renders the index page from the accumulated `(title, short identifier)`
/// entries, in order.
pub fn render_index_page(entries: &Vec<(String, String)>) -> (r: String)
    ensures
        r@ == spec_index_page(entries.deep_view()),
{
    let mut body = render_h1("Posts Index");
    body.append(render_list(entries).as_str());
    let r = render_page("Posts Index", "style.css", body.as_str());
    proof {
        assert(r@ =~= spec_index_page(entries.deep_view()));
    }
    r
}

/// A rendered output file: its name within the output directory and its
/// full contents.
pub struct OutFile {
    pub name: String,
    pub contents: String,
}

/// The file name of a post: its short identifier followed by `.html`.
pub open spec fn spec_post_file_name(c: Commit) -> Seq<char> {
    spec_short_id(c.id@) + ".html"@
}

/// The rendered page of a qualifying commit.
pub open spec fn spec_post_contents(c: Commit) -> Seq<char> {
    spec_post_page(spec_post_title(c), spec_paragraphs(spec_body_text(c)))
}

/// The index entry of a qualifying commit: its title and short identifier.
pub open spec fn spec_entry(c: Commit) -> (Seq<char>, Seq<char>) {
    (spec_post_title(c), spec_short_id(c.id@))
}

/// The index entries of a commit sequence: one per qualifying commit, in
/// the order the commits were received.
pub open spec fn spec_entries(cs: Seq<Commit>) -> Seq<(Seq<char>, Seq<char>)>
    decreases cs.len(),
{
    if cs.len() == 0 {
        Seq::<(Seq<char>, Seq<char>)>::empty()
    } else if spec_qualifies(cs.last()) {
        spec_entries(cs.drop_last()).push(spec_entry(cs.last()))
    } else {
        spec_entries(cs.drop_last())
    }
}

/// The post files of a commit sequence: one per qualifying commit, in the
/// order the commits were received.
pub open spec fn spec_post_files(cs: Seq<Commit>) -> Seq<(Seq<char>, Seq<char>)>
    decreases cs.len(),
{
    if cs.len() == 0 {
        Seq::<(Seq<char>, Seq<char>)>::empty()
    } else if spec_qualifies(cs.last()) {
        spec_post_files(cs.drop_last()).push(
            (spec_post_file_name(cs.last()), spec_post_contents(cs.last())),
        )
    } else {
        spec_post_files(cs.drop_last())
    }
}

/// A commit whose summary does not begin with the marker contributes
/// nothing: receiving it after any history leaves both the post files and
/// the index entries exactly as they were.
pub proof fn lemma_non_post_ignored(cs: Seq<Commit>, c: Commit)
    requires
        !spec_qualifies(c),
    ensures
        spec_entries(cs.push(c)) == spec_entries(cs),
        spec_post_files(cs.push(c)) == spec_post_files(cs),
{
    assert(cs.push(c).drop_last() =~= cs);
    assert(cs.push(c).last() == c);
}

/// A qualifying commit appends exactly its own entry and its own post
/// file after everything received before it: the index enumerates
/// qualifying commits in receive order.
pub proof fn lemma_post_appended(cs: Seq<Commit>, c: Commit)
    requires
        spec_qualifies(c),
    ensures
        spec_entries(cs.push(c)) == spec_entries(cs).push(spec_entry(c)),
        spec_post_files(cs.push(c)) == spec_post_files(cs).push(
            (spec_post_file_name(c), spec_post_contents(c)),
        ),
{
    assert(cs.push(c).drop_last() =~= cs);
    assert(cs.push(c).last() == c);
}

/// A history in which no commit qualifies yields no post file and no
/// index entry at all; the index page and the stylesheet are still
/// produced, over an empty list.
pub proof fn lemma_no_posts_empty_index(cs: Seq<Commit>)
    requires
        forall|k: int| 0 <= k < cs.len() ==> !spec_qualifies(#[trigger] cs[k]),
    ensures
        spec_entries(cs) == Seq::<(Seq<char>, Seq<char>)>::empty(),
        spec_post_files(cs) == Seq::<(Seq<char>, Seq<char>)>::empty(),
    decreases cs.len(),
{
    if cs.len() > 0 {
        assert(!spec_qualifies(cs[cs.len() - 1]));
        lemma_no_posts_empty_index(cs.drop_last());
    }
}

/// Two runs over the same commit sequence produce identical outputs, byte
/// for byte: every output of `run_pipeline` is pinned to a function of
/// the commit sequence alone, so any two results that meet its contract
/// are equal.
pub proof fn lemma_run_deterministic(
    cs: Seq<Commit>,
    posts1: Seq<(Seq<char>, Seq<char>)>,
    index1: Seq<char>,
    style1: Seq<char>,
    posts2: Seq<(Seq<char>, Seq<char>)>,
    index2: Seq<char>,
    style2: Seq<char>,
)
    requires
        posts1 == spec_post_files(cs),
        index1 == spec_index_page(spec_entries(cs)),
        style1 == spec_stylesheet(),
        posts2 == spec_post_files(cs),
        index2 == spec_index_page(spec_entries(cs)),
        style2 == spec_stylesheet(),
    ensures
        posts1 == posts2,
        index1 == index2,
        style1 == style2,
{
}

/// The post builder: consumes commits one at a time and accumulates the
/// index of `(title, short identifier)` entries in receive order.
pub struct Builder {
    pub index: Vec<(String, String)>,
}

impl Builder {
    /// A builder with an empty index.
    pub fn new() -> (b: Builder)
        ensures
            b.index.deep_view() == Seq::<(Seq<char>, Seq<char>)>::empty(),
    {
        let b = Builder { index: Vec::new() };
        proof {
            assert(b.index.deep_view() =~= Seq::<(Seq<char>, Seq<char>)>::empty());
        }
        b
    }

    /// Handles one received commit.  A qualifying commit yields its
    /// rendered post file and appends its entry to the index; any other
    /// commit yields nothing and leaves the index unchanged.
    pub fn handle_commit(&mut self, c: &Commit) -> (out: Option<OutFile>)
        requires
            c.id@.len() >= 4,
        ensures
            out is Some <==> spec_qualifies(*c),
            match out {
                Option::Some(f) => f.name@ == spec_post_file_name(*c) && f.contents@
                    == spec_post_contents(*c) && final(self).index.deep_view() == old(
                    self,
                ).index.deep_view().push(spec_entry(*c)),
                Option::None => final(self).index == old(self).index,
            },
    {
        match process_commit(c) {
            Option::None => Option::None,
            Option::Some(p) => {
                let contents = render_post_page(p.title.as_str(), &p.paragraphs);
                let mut name = p.short_id.clone();
                name.append(".html");
                self.index.push((p.title, p.short_id));
                proof {
                    assert(self.index.deep_view() =~= old(self).index.deep_view().push(
                        spec_entry(*c),
                    ));
                }
                Option::Some(OutFile { name, contents })
            },
        }
    }

    /// Renders the final outputs once the queue has closed: the index page
    /// over the accumulated entries, and the static stylesheet.
    pub fn finish(&self) -> (r: (String, String))
        ensures
            r.0@ == spec_index_page(self.index.deep_view()),
            r.1@ == spec_stylesheet(),
    {
        (render_index_page(&self.index), stylesheet())
    }
}

/// Everything one run of the pipeline writes: the post files in receive
/// order, the index page, and the stylesheet.
pub struct Site {
    pub posts: Vec<OutFile>,
    pub index_html: String,
    pub style_css: String,
}

impl Site {
    /// The `(name, contents)` views of the post files.
    pub open spec fn posts_view(&self) -> Seq<(Seq<char>, Seq<char>)> {
        Seq::new(self.posts.len() as nat, |i: int| (self.posts[i].name@, self.posts[i].contents@))
    }
}

/// Runs the whole pipeline over the commits in the order the walker
/// emitted them.  Every output is a function of that sequence alone: the
/// post files and index entries are those of the qualifying commits, in
/// emission order, and the index page and stylesheet are produced even
/// when no commit qualifies.
pub fn run_pipeline(commits: &Vec<Commit>) -> (site: Site)
    requires
        forall|k: int| 0 <= k < commits@.len() ==> (#[trigger] commits@[k]).id@.len() >= 4,
    ensures
        site.posts_view() == spec_post_files(commits@),
        site.index_html@ == spec_index_page(spec_entries(commits@)),
        site.style_css@ == spec_stylesheet(),
{
    let mut b = Builder::new();
    let mut posts: Vec<OutFile> = Vec::new();
    let mut i: usize = 0;
    proof {
        assert(Seq::new(0nat, |j: int| (posts[j].name@, posts[j].contents@)) =~= spec_post_files(
            commits@.take(0),
        ));
        assert(b.index.deep_view() =~= spec_entries(commits@.take(0)));
    }
    while i < commits.len()
        invariant
            i <= commits.len(),
            forall|k: int| 0 <= k < commits@.len() ==> (#[trigger] commits@[k]).id@.len() >= 4,
            Seq::new(posts.len() as nat, |j: int| (posts[j].name@, posts[j].contents@))
                == spec_post_files(commits@.take(i as int)),
            b.index.deep_view() == spec_entries(commits@.take(i as int)),
        decreases commits.len() - i,
    {
        let ghost prev_posts = Seq::new(
            posts.len() as nat,
            |j: int| (posts[j].name@, posts[j].contents@),
        );
        match b.handle_commit(&commits[i]) {
            Option::Some(f) => {
                posts.push(f);
            },
            Option::None => {},
        }
        proof {
            assert(commits@.take(i + 1).drop_last() =~= commits@.take(i as int));
            assert(commits@.take(i + 1).last() == commits@[i as int]);
            if spec_qualifies(commits@[i as int]) {
                assert(Seq::new(
                    posts.len() as nat,
                    |j: int| (posts[j].name@, posts[j].contents@),
                ) =~= prev_posts.push(
                    (spec_post_file_name(commits@[i as int]), spec_post_contents(
                        commits@[i as int],
                    )),
                ));
            } else {
                assert(Seq::new(
                    posts.len() as nat,
                    |j: int| (posts[j].name@, posts[j].contents@),
                ) =~= prev_posts);
            }
        }
        i = i + 1;
    }
    proof {
        assert(commits@.take(commits@.len() as int) =~= commits@);
    }
    let (index_html, style_css) = b.finish();
    Site { posts, index_html, style_css }
}

} // verus!

