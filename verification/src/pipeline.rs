//! The post-processing pipeline: per-selector element processors (link
//! rewriting and ANSI conversion) registered on a builder and compiled into
//! one ordered list of selector bindings, together with the string and path
//! logic the processors decide with.

use vstd::prelude::*;
use vstd::string::{StrSliceExecFns, StringExecFns};

use crate::cache::{find_index, store_spec, SnippetCache};
use crate::render::{ansi_blocks, render_spec, rewrite_ansi_to_html};

verus! {

/// A configuration error surfaced when the pipeline is built, before any
/// request-specific work.
#[derive(Debug, Clone, Copy, PartialEq, Eq, Structural)]
pub enum BuildError {
    /// No attribute was supplied and none could be derived from the
    /// selector.
    InvalidSelector,
    /// The configured source directory does not exist.
    MissingSourceDirectory,
}

/// The index of the first occurrence of a character, or -1 when the
/// character does not occur.
pub open spec fn first_index_of(s: Seq<char>, c: char) -> int
    decreases s.len(),
{
    if s.len() == 0 {
        -1
    } else if s[0] == c {
        0
    } else {
        let r = first_index_of(s.drop_first(), c);
        if r == -1 {
            -1
        } else {
            r + 1
        }
    }
}

/// A sequence without its leading run of one character.
pub open spec fn trim_leading(s: Seq<char>, c: char) -> Seq<char>
    decreases s.len(),
{
    if s.len() > 0 && s[0] == c {
        trim_leading(s.drop_first(), c)
    } else {
        s
    }
}

/// A sequence without its trailing run of one character.
pub open spec fn trim_trailing(s: Seq<char>, c: char) -> Seq<char>
    decreases s.len(),
{
    if s.len() > 0 && s.last() == c {
        trim_trailing(s.drop_last(), c)
    } else {
        s
    }
}

/// A path joined onto a base: the base, a separator unless the base already
/// ends in one or is empty, then the relative part. The relative part never
/// replaces the base.
pub open spec fn join_path_spec(base: Seq<char>, rel: Seq<char>) -> Seq<char> {
    if base.len() == 0 {
        rel
    } else if base.last() == '/' {
        base + rel
    } else {
        base + "/"@ + rel
    }
}

/// The filesystem path an element's `source` attribute resolves to: the
/// source directory, then the subdirectory when the element asks for
/// relative resolution, then the attribute value stripped of surrounding
/// separators so that it can only ever name something below the base.
pub open spec fn resolve_spec(
    dir: Seq<char>,
    sub: Seq<char>,
    file: Seq<char>,
    relative: bool,
) -> Seq<char> {
    let base = if relative {
        join_path_spec(dir, sub)
    } else {
        dir
    };
    join_path_spec(base, trim_leading(trim_trailing(file, '/'), '/'))
}

/// The attribute derived from a selector of the form `tag[attribute]`: the
/// text between the first bracket and the next (or the end), without
/// trailing closing brackets; a selector without brackets derives nothing.
pub open spec fn derive_attr_spec(sel: Seq<char>) -> Option<Seq<char>> {
    let i = first_index_of(sel, '[');
    if i == -1 {
        None
    } else {
        let rest = sel.skip(i + 1);
        let j = first_index_of(rest, '[');
        let seg = if j == -1 {
            rest
        } else {
            rest.take(j)
        };
        Some(trim_trailing(seg, ']'))
    }
}

/// The view of an optional owned string.
pub open spec fn opt_view(o: Option<String>) -> Option<Seq<char>> {
    match o {
        Some(s) => Some(s@),
        None => None,
    }
}

proof fn lemma_first_index_found(s: Seq<char>, c: char, j: int)
    requires
        0 <= j < s.len(),
        s[j] == c,
        forall|k: int| 0 <= k < j ==> s[k] != c,
    ensures
        first_index_of(s, c) == j,
    decreases j,
{
    if j > 0 {
        assert(s[0] != c);
        lemma_first_index_found(s.drop_first(), c, j - 1);
    }
}

proof fn lemma_first_index_none(s: Seq<char>, c: char)
    requires
        forall|k: int| 0 <= k < s.len() ==> s[k] != c,
    ensures
        first_index_of(s, c) == -1,
    decreases s.len(),
{
    if s.len() > 0 {
        lemma_first_index_none(s.drop_first(), c);
    }
}

/// Finds the first occurrence of a character at or after a starting index.
fn find_char(s: &str, from: usize, c: char) -> (r: Option<usize>)
    requires
        from <= s@.len(),
    ensures
        ({
            let sub = s@.skip(from as int);
            match r {
                Some(j) => from <= j < s@.len() && s@[j as int] == c && first_index_of(sub, c)
                    == j - from,
                None => first_index_of(sub, c) == -1,
            }
        }),
{
    let n = s.unicode_len();
    let mut j = from;
    while j < n
        invariant
            from <= j <= n,
            n == s@.len(),
            forall|k: int| from <= k < j ==> s@[k] != c,
        decreases n - j,
    {
        if s.get_char(j) == c {
            proof {
                let sub = s@.skip(from as int);
                assert forall|k: int| 0 <= k < j - from implies sub[k] != c by {
                    assert(sub[k] == s@[from + k]);
                }
                lemma_first_index_found(sub, c, j - from);
            }
            return Some(j);
        }
        j = j + 1;
    }
    proof {
        let sub = s@.skip(from as int);
        assert forall|k: int| 0 <= k < sub.len() implies sub[k] != c by {
            assert(sub[k] == s@[from + k]);
        }
        lemma_first_index_none(sub, c);
    }
    None
}

/// A string without its leading run of separators.
fn trim_leading_slashes(s: &str) -> (r: String)
    ensures
        r@ == trim_leading(s@, '/'),
{
    let n = s.unicode_len();
    let mut a: usize = 0;
    proof {
        assert(s@.skip(0) =~= s@);
    }
    while a < n && s.get_char(a) == '/'
        invariant
            a <= n,
            n == s@.len(),
            trim_leading(s@, '/') == trim_leading(s@.skip(a as int), '/'),
        decreases n - a,
    {
        proof {
            assert(s@.skip(a as int)[0] == s@[a as int]);
            assert(s@.skip(a as int).drop_first() =~= s@.skip(a as int + 1));
        }
        a = a + 1;
    }
    proof {
        if a == n {
            assert(s@.skip(a as int) =~= Seq::<char>::empty());
        } else {
            assert(s@.skip(a as int)[0] == s@[a as int]);
        }
    }
    String::from_str(s.substring_char(a, n))
}

/// A string without its surrounding runs of separators.
fn trim_slashes(s: &str) -> (r: String)
    ensures
        r@ == trim_leading(trim_trailing(s@, '/'), '/'),
{
    let n = s.unicode_len();
    let mut b: usize = n;
    proof {
        assert(s@.take(n as int) =~= s@);
    }
    while b > 0 && s.get_char(b - 1) == '/'
        invariant
            b <= n,
            n == s@.len(),
            trim_trailing(s@, '/') == trim_trailing(s@.take(b as int), '/'),
        decreases b,
    {
        proof {
            assert(s@.take(b as int).last() == s@[b as int - 1]);
            assert(s@.take(b as int).drop_last() =~= s@.take(b as int - 1));
        }
        b = b - 1;
    }
    proof {
        if b > 0 {
            assert(s@.take(b as int).last() == s@[b as int - 1]);
        }
        assert(trim_trailing(s@, '/') == s@.take(b as int));
    }
    let ghost t = s@.take(b as int);
    let mut a: usize = 0;
    proof {
        assert(t.skip(0) =~= t);
    }
    while a < b && s.get_char(a) == '/'
        invariant
            a <= b <= n,
            n == s@.len(),
            t == s@.take(b as int),
            trim_leading(t, '/') == trim_leading(t.skip(a as int), '/'),
        decreases b - a,
    {
        proof {
            assert(t.skip(a as int)[0] == s@[a as int]);
            assert(t.skip(a as int).drop_first() =~= t.skip(a as int + 1));
        }
        a = a + 1;
    }
    proof {
        if a == b {
            assert(t.skip(a as int) =~= Seq::<char>::empty());
        } else {
            assert(t.skip(a as int)[0] == s@[a as int]);
        }
        assert(trim_leading(t, '/') == t.skip(a as int));
        assert(t.skip(a as int) =~= s@.subrange(a as int, b as int));
    }
    String::from_str(s.substring_char(a, b))
}

/// Joins a relative path onto a base path.
fn join_path(base: &str, rel: &str) -> (r: String)
    ensures
        r@ == join_path_spec(base@, rel@),
{
    let n = base.unicode_len();
    if n == 0 {
        return String::from_str(rel);
    }
    let mut out = String::from_str(base);
    if base.get_char(n - 1) == '/' {
        out.append(rel);
        out
    } else {
        out.append("/");
        out.append(rel);
        proof {
            assert(out@ =~= base@ + "/"@ + rel@);
        }
        out
    }
}

/// Law: a joined path always begins with its base, so the relative part can
/// neither escape nor replace it.
pub proof fn lemma_join_prefix(base: Seq<char>, rel: Seq<char>)
    ensures
        join_path_spec(base, rel).len() >= base.len(),
        join_path_spec(base, rel).take(base.len() as int) == base,
{
    if base.len() == 0 {
        assert(join_path_spec(base, rel).take(0) =~= base);
    } else if base.last() == '/' {
        assert((base + rel).take(base.len() as int) =~= base);
    } else {
        assert((base + "/"@ + rel).take(base.len() as int) =~= base);
    }
}

/// Law: the path a `source` attribute resolves to always stays inside the
/// configured source directory: the resolved path extends the directory, so
/// even a leading separator in the attribute value cannot escape it.
pub proof fn lemma_path_safety(dir: Seq<char>, sub: Seq<char>, file: Seq<char>, relative: bool)
    ensures
        resolve_spec(dir, sub, file, relative).len() >= dir.len(),
        resolve_spec(dir, sub, file, relative).take(dir.len() as int) == dir,
{
    let base = if relative {
        join_path_spec(dir, sub)
    } else {
        dir
    };
    let trimmed = trim_leading(trim_trailing(file, '/'), '/');
    let resolved = join_path_spec(base, trimmed);
    lemma_join_prefix(dir, sub);
    lemma_join_prefix(base, trimmed);
    assert(resolved.take(dir.len() as int) =~= resolved.take(base.len() as int).take(
        dir.len() as int,
    ));
}

/// The element processor that rewrites one resource-link attribute by
/// prefixing a target URL.
pub struct RewriteLinks {
    pub url: String,
    pub attribute: String,
}

impl RewriteLinks {
    /// A processor rewriting the given attribute against the given URL.
    pub fn new(url: String, attribute: String) -> (r: Self)
        ensures
            r.url@ == url@,
            r.attribute@ == attribute@,
    {
        RewriteLinks { url, attribute }
    }

    /// The value the configured attribute is rewritten to: the target URL
    /// prefixed to the original value by plain concatenation. An element
    /// without the attribute is left alone: that is no error.
    pub fn rewritten(&self, value: &Option<String>) -> (r: Option<String>)
        ensures
            value is None ==> r is None,
            (value matches Some(v) ==> (r matches Some(w) && w@ == self.url@ + v@)),
    {
        match value {
            Some(v) => {
                let mut out = self.url.clone();
                out.append(v.as_str());
                Some(out)
            },
            None => None,
        }
    }

    fn duplicate(&self) -> (r: Self)
        ensures
            r == *self,
    {
        RewriteLinks { url: self.url.clone(), attribute: self.attribute.clone() }
    }
}

/// What the ANSI converter asks of its driver for one matched element.
pub enum ConvertStep {
    /// The element has no `source` attribute: it does not apply, no error.
    Skip,
    /// The cache already holds the rendering: splice this HTML in.
    Splice(String),
    /// The cache misses: read this file, then render and cache its content.
    ReadFile(String),
}

/// The element processor that replaces an element by the HTML rendering of
/// the ANSI output file its `source` attribute names.
pub struct ConvertAnsi {
    pub source_directory: String,
    pub subdirectory: String,
}

impl ConvertAnsi {
    /// A processor reading below the given source directory. The directory
    /// must have been probed by the caller (the library touches no
    /// filesystem); a missing directory is a configuration error surfaced
    /// immediately, not deferred to first use.
    pub fn new(source_file_path: String, subdirectory: String, source_directory_exists: bool) -> (r:
        Result<Self, BuildError>)
        ensures
            source_directory_exists ==> (r matches Ok(c) && c.source_directory@
                == source_file_path@ && c.subdirectory@ == subdirectory@),
            !source_directory_exists ==> (r matches Err(e) && e
                == BuildError::MissingSourceDirectory),
    {
        if source_directory_exists {
            Ok(ConvertAnsi { source_directory: source_file_path, subdirectory })
        } else {
            Err(BuildError::MissingSourceDirectory)
        }
    }

    /// The path the element's `source` attribute resolves to; when the
    /// element carries the `relative` marker the configured subdirectory is
    /// interposed. The value is joined, never allowed to replace the base.
    pub fn resolve_source(&self, filename: &str, relative: bool) -> (r: String)
        ensures
            r@ == resolve_spec(self.source_directory@, self.subdirectory@, filename@, relative),
    {
        let trimmed = trim_slashes(filename);
        if relative {
            let base = join_path(self.source_directory.as_str(), self.subdirectory.as_str());
            join_path(base.as_str(), trimmed.as_str())
        } else {
            join_path(self.source_directory.as_str(), trimmed.as_str())
        }
    }

    /// Decides what happens to one matched element: an element without a
    /// `source` attribute is skipped; a cached rendering (keyed by the raw
    /// attribute value) is spliced in, becoming most-recently-used; on a
    /// miss the driver is told which file to read, and the cache is left
    /// untouched, so no lock need be held across the read.
    pub fn prepare(&self, cache: &mut SnippetCache, source: &Option<String>, relative: bool) -> (r:
        ConvertStep)
        ensures
            source is None ==> (r is Skip && final(cache).entries() == old(cache).entries()),
            (source matches Some(f) ==> ({
                let es = old(cache).entries();
                let i = find_index(es, f@);
                if i == -1 {
                    r matches ConvertStep::ReadFile(p) && p@ == resolve_spec(
                        self.source_directory@,
                        self.subdirectory@,
                        f@,
                        relative,
                    ) && final(cache).entries() == es
                } else {
                    r matches ConvertStep::Splice(h) && h@ == es[i].1 && final(cache).entries()
                        == seq![es[i]] + es.remove(i)
                }
            })),
    {
        match source {
            None => ConvertStep::Skip,
            Some(filename) => {
                match cache.lookup(filename) {
                    Some(hit) => ConvertStep::Splice(hit),
                    None => ConvertStep::ReadFile(
                        self.resolve_source(filename.as_str(), relative),
                    ),
                }
            },
        }
    }

    /// Renders freshly read ANSI output to HTML and stores it in the
    /// snippet cache under the element's raw `source` value, so the next
    /// element naming the same source is served from the cache.
    pub fn convert_and_cache(cache: &mut SnippetCache, filename: &String, content: &str) -> (r:
        String)
        ensures
            r@ == render_spec(ansi_blocks(content@)),
            final(cache).entries() == store_spec(old(cache).entries(), filename@, r@, 256),
    {
        let html = rewrite_ansi_to_html(content);
        cache.store(filename, &html);
        html
    }

    fn duplicate(&self) -> (r: Self)
        ensures
            r == *self,
    {
        ConvertAnsi {
            source_directory: self.source_directory.clone(),
            subdirectory: self.subdirectory.clone(),
        }
    }
}

/// One compiled selector binding: a processor invoked once per element the
/// selector matches, in document order.
pub enum SelectorBinding {
    Links(String, RewriteLinks),
    Ansi(String, ConvertAnsi),
}

/// The bindings of a list of link-rewriting registrations, in order.
pub open spec fn links_bindings(links: Seq<(String, RewriteLinks)>) -> Seq<SelectorBinding>
    decreases links.len(),
{
    if links.len() == 0 {
        Seq::<SelectorBinding>::empty()
    } else {
        links_bindings(links.drop_last()).push(
            SelectorBinding::Links(links.last().0, links.last().1),
        )
    }
}

/// The bindings of a list of ANSI-conversion registrations, in order.
pub open spec fn ansi_bindings(ansi: Seq<(String, ConvertAnsi)>) -> Seq<SelectorBinding>
    decreases ansi.len(),
{
    if ansi.len() == 0 {
        Seq::<SelectorBinding>::empty()
    } else {
        ansi_bindings(ansi.drop_last()).push(SelectorBinding::Ansi(ansi.last().0, ansi.last().1))
    }
}

/// The compiled bindings of a builder: every link-rewriting registration in
/// order, then every ANSI-conversion registration in order.
pub open spec fn bindings_spec(
    links: Seq<(String, RewriteLinks)>,
    ansi: Seq<(String, ConvertAnsi)>,
) -> Seq<SelectorBinding> {
    links_bindings(links) + ansi_bindings(ansi)
}

/// Accumulates per-selector processor registrations and compiles them into
/// one ordered list of selector bindings.
pub struct PostProcessingBuilder {
    pub rewrite_links_selector: Vec<(String, RewriteLinks)>,
    pub convert_ansi_selector: Vec<(String, ConvertAnsi)>,
}

impl Default for PostProcessingBuilder {
    fn default() -> (r: Self)
        ensures
            r.rewrite_links_selector@ == Seq::<(String, RewriteLinks)>::empty(),
            r.convert_ansi_selector@ == Seq::<(String, ConvertAnsi)>::empty(),
    {
        PostProcessingBuilder {
            rewrite_links_selector: Vec::new(),
            convert_ansi_selector: Vec::new(),
        }
    }
}

/// True when the new registration list is the old one with one link
/// processor for the given selector, URL and attribute appended.
pub open spec fn links_pushed(
    old_regs: Seq<(String, RewriteLinks)>,
    new_regs: Seq<(String, RewriteLinks)>,
    sel: Seq<char>,
    url: Seq<char>,
    attr: Seq<char>,
) -> bool {
    new_regs.len() == old_regs.len() + 1 && new_regs.take(old_regs.len() as int) == old_regs
        && new_regs.last().0@ == sel && new_regs.last().1.url@ == url
        && new_regs.last().1.attribute@ == attr
}

/// True when the new registration list is the old one with one ANSI
/// processor for the given selector, directory and subdirectory appended.
pub open spec fn ansi_pushed(
    old_regs: Seq<(String, ConvertAnsi)>,
    new_regs: Seq<(String, ConvertAnsi)>,
    sel: Seq<char>,
    dir: Seq<char>,
    sub: Seq<char>,
) -> bool {
    new_regs.len() == old_regs.len() + 1 && new_regs.take(old_regs.len() as int) == old_regs
        && new_regs.last().0@ == sel && new_regs.last().1.source_directory@ == dir
        && new_regs.last().1.subdirectory@ == sub
}

/// Derives the attribute a selector of the form `tag[attribute]` names.
fn derive_attribute(selector: &str) -> (r: Option<String>)
    ensures
        opt_view(r) == derive_attr_spec(selector@),
{
    let i = match find_char(selector, 0, '[') {
        Some(i) => i,
        None => {
            proof {
                assert(selector@.skip(0) =~= selector@);
            }
            return None;
        },
    };
    proof {
        assert(selector@.skip(0) =~= selector@);
    }
    let n = selector.unicode_len();
    let end = match find_char(selector, i + 1, '[') {
        Some(j) => j,
        None => n,
    };
    let ghost rest = selector@.skip(i as int + 1);
    let ghost seg = selector@.subrange(i as int + 1, end as int);
    proof {
        let j = first_index_of(rest, '[');
        if j == -1 {
            assert(seg =~= rest);
        } else {
            assert(seg =~= rest.take(j));
        }
    }
    let mut b: usize = end;
    proof {
        assert(seg =~= selector@.subrange(i as int + 1, b as int));
    }
    while b > i + 1 && selector.get_char(b - 1) == ']'
        invariant
            i + 1 <= b <= end <= n,
            n == selector@.len(),
            seg == selector@.subrange(i as int + 1, end as int),
            trim_trailing(seg, ']') == trim_trailing(
                selector@.subrange(i as int + 1, b as int),
                ']',
            ),
        decreases b,
    {
        proof {
            let w = selector@.subrange(i as int + 1, b as int);
            assert(w.last() == selector@[b as int - 1]);
            assert(w.drop_last() =~= selector@.subrange(i as int + 1, b as int - 1));
        }
        b = b - 1;
    }
    proof {
        let w = selector@.subrange(i as int + 1, b as int);
        if b > i + 1 {
            assert(w.last() == selector@[b as int - 1]);
        } else {
            assert(w =~= Seq::<char>::empty());
        }
        assert(trim_trailing(seg, ']') == w);
    }
    Some(String::from_str(selector.substring_char(i + 1, b)))
}

impl PostProcessingBuilder {
    /// Registers a link-rewriting processor for a selector. When no
    /// attribute is supplied it is derived from a selector of the form
    /// `tag[attribute]`; a selector no attribute can be derived from is an
    /// input-validation error reported to the caller, not silently
    /// defaulted.
    pub fn rewrite_links(self, selector: String, url: String, attribute: Option<String>) -> (r:
        Result<Self, BuildError>)
        ensures
            (attribute matches Some(a) ==> (r matches Ok(b) && links_pushed(
                self.rewrite_links_selector@,
                b.rewrite_links_selector@,
                selector@,
                url@,
                a@,
            ) && b.convert_ansi_selector@ == self.convert_ansi_selector@)),
            attribute is None && derive_attr_spec(selector@) is None ==> (r matches Err(e) && e
                == BuildError::InvalidSelector),
            attribute is None ==> (derive_attr_spec(selector@) matches Some(d) ==> (r matches Ok(
                b,
            ) && links_pushed(
                self.rewrite_links_selector@,
                b.rewrite_links_selector@,
                selector@,
                url@,
                d,
            ) && b.convert_ansi_selector@ == self.convert_ansi_selector@)),
    {
        let attr = match attribute {
            Some(a) => a,
            None => {
                match derive_attribute(selector.as_str()) {
                    Some(a) => a,
                    None => {
                        return Err(BuildError::InvalidSelector);
                    },
                }
            },
        };
        let rewrite_links = RewriteLinks::new(url, attr);
        let mut s = self;
        s.rewrite_links_selector.push((selector, rewrite_links));
        proof {
            assert(s.rewrite_links_selector@.take(self.rewrite_links_selector@.len() as int)
                =~= self.rewrite_links_selector@);
        }
        Ok(s)
    }

    /// Registers an ANSI-conversion processor for a selector. The source
    /// directory must have been probed by the caller; a missing directory
    /// fails the registration at once.
    pub fn convert_ansi(
        self,
        selector: String,
        source_file_path: String,
        subdirectory: String,
        source_directory_exists: bool,
    ) -> (r: Result<Self, BuildError>)
        ensures
            source_directory_exists ==> (r matches Ok(b) && ansi_pushed(
                self.convert_ansi_selector@,
                b.convert_ansi_selector@,
                selector@,
                source_file_path@,
                subdirectory@,
            ) && b.rewrite_links_selector@ == self.rewrite_links_selector@),
            !source_directory_exists ==> (r matches Err(e) && e
                == BuildError::MissingSourceDirectory),
    {
        let convert_ansi = match ConvertAnsi::new(
            source_file_path,
            subdirectory,
            source_directory_exists,
        ) {
            Ok(c) => c,
            Err(e) => {
                return Err(e);
            },
        };
        let mut s = self;
        s.convert_ansi_selector.push((selector, convert_ansi));
        proof {
            assert(s.convert_ansi_selector@.take(self.convert_ansi_selector@.len() as int)
                =~= self.convert_ansi_selector@);
        }
        Ok(s)
    }

    /// Compiles all registrations into a single ordered list of selector
    /// bindings: link rewriters first, then ANSI converters, each in
    /// registration order.
    pub fn build(self) -> (r: Vec<SelectorBinding>)
        ensures
            r@ == bindings_spec(self.rewrite_links_selector@, self.convert_ansi_selector@),
    {
        let ghost links = self.rewrite_links_selector@;
        let ghost ansi = self.convert_ansi_selector@;
        let mut out: Vec<SelectorBinding> = Vec::new();
        let mut i: usize = 0;
        proof {
            assert(links.take(0) =~= Seq::<(String, RewriteLinks)>::empty());
        }
        while i < self.rewrite_links_selector.len()
            invariant
                i <= links.len(),
                links == self.rewrite_links_selector@,
                out@ == links_bindings(links.take(i as int)),
            decreases links.len() - i,
        {
            let p = &self.rewrite_links_selector[i];
            out.push(SelectorBinding::Links(p.0.clone(), p.1.duplicate()));
            i = i + 1;
            proof {
                assert(links.take(i as int).drop_last() =~= links.take(i as int - 1));
                assert(links.take(i as int).last() == links[i as int - 1]);
            }
        }
        proof {
            assert(links.take(links.len() as int) =~= links);
        }
        let mut j: usize = 0;
        proof {
            assert(ansi.take(0) =~= Seq::<(String, ConvertAnsi)>::empty());
            assert(out@ + ansi_bindings(ansi.take(0)) =~= out@);
        }
        while j < self.convert_ansi_selector.len()
            invariant
                j <= ansi.len(),
                ansi == self.convert_ansi_selector@,
                out@ == links_bindings(links) + ansi_bindings(ansi.take(j as int)),
            decreases ansi.len() - j,
        {
            let p = &self.convert_ansi_selector[j];
            out.push(SelectorBinding::Ansi(p.0.clone(), p.1.duplicate()));
            j = j + 1;
            proof {
                assert(ansi.take(j as int).drop_last() =~= ansi.take(j as int - 1));
                assert(ansi.take(j as int).last() == ansi[j as int - 1]);
                assert(out@ =~= links_bindings(links) + ansi_bindings(ansi.take(j as int)));
            }
        }
        proof {
            assert(ansi.take(ansi.len() as int) =~= ansi);
        }
        out
    }
}

/// The base URL static assets are rewritten against: the configured site
/// URL without surrounding separators, one separator, and the static path
/// without leading separators.
pub fn static_base_url(url: &str, static_path: &str) -> (r: String)
    ensures
        r@ == trim_leading(trim_trailing(url@, '/'), '/') + "/"@ + trim_leading(
            static_path@,
            '/',
        ),
{
    let mut out = trim_slashes(url);
    out.append("/");
    out.append(trim_leading_slashes(static_path).as_str());
    out
}

} // verus!
