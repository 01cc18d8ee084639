//! What a page says about itself: title, author, date, description and tags.

use crate::text::{
    chars_eq_str, lemma_chars_deep_view, lemma_push_deep_view, push_str, str_eq, to_chars,
    to_string, trim, trimmed,
};
use vstd::prelude::*;

verus! {

/// The metadata gathered from one page. A field set from an Open Graph
/// property is final; one set from a plain `name` tag, or the title taken from
/// the `<title>` element, yields to the first Open Graph value for that field.
/// `tags` holds no tag twice.
pub struct MetadataHandler {
    pub title: Option<String>,
    pub author: Option<String>,
    pub date: Option<String>,
    pub description: Option<String>,
    pub tags: Vec<String>,
    /// Whether `author` came from an Open Graph property.
    pub author_is_final: bool,
    /// Whether `description` came from an Open Graph property.
    pub description_is_final: bool,
    /// The block as [`MetadataHandler::format_metadata`] wrote it last.
    pub metadata_buffer: String,
}

/// The mathematical content of a [`MetadataHandler`].
pub struct Metadata {
    pub title: Option<Seq<char>>,
    pub author: Option<Seq<char>>,
    pub date: Option<Seq<char>>,
    pub description: Option<Seq<char>>,
    pub tags: Seq<Seq<char>>,
    pub author_is_final: bool,
    pub description_is_final: bool,
}

impl View for MetadataHandler {
    type V = Metadata;

    open spec fn view(&self) -> Metadata {
        Metadata {
            title: self.title.deep_view(),
            author: self.author.deep_view(),
            date: self.date.deep_view(),
            description: self.description.deep_view(),
            tags: self.tags.deep_view(),
            author_is_final: self.author_is_final,
            description_is_final: self.description_is_final,
        }
    }
}

/// No text occurs twice in `s`.
pub open spec fn distinct(s: Seq<Seq<char>>) -> bool {
    forall|i: int, j: int| 0 <= i < j < s.len() ==> s[i] != s[j]
}

/// The texts of `items` from index `i` on, each but the very first preceded by
/// a comma and a space.
pub open spec fn joined_from(items: Seq<Seq<char>>, i: int) -> Seq<char>
    decreases items.len() - i,
{
    if !(0 <= i < items.len()) {
        Seq::empty()
    } else if i == 0 {
        items[i] + joined_from(items, i + 1)
    } else {
        ", "@ + items[i] + joined_from(items, i + 1)
    }
}

/// The pieces of `s` between its commas, from the piece that starts at `start`
/// on; `i` is how far that piece has been read.
pub open spec fn split_from(s: Seq<char>, start: int, i: int) -> Seq<Seq<char>>
    decreases s.len() - i,
{
    if !(0 <= start <= i < s.len()) {
        seq![s.subrange(start, s.len() as int)]
    } else if s[i] == ',' {
        seq![s.subrange(start, i)] + split_from(s, i + 1, i + 1)
    } else {
        split_from(s, start, i + 1)
    }
}

/// The pieces of `s` between its commas.
pub open spec fn split_commas(s: Seq<char>) -> Seq<Seq<char>> {
    split_from(s, 0, 0)
}

/// `tags` with `tag` at its end, unless it is there already.
pub open spec fn with_tag(tags: Seq<Seq<char>>, tag: Seq<char>) -> Seq<Seq<char>> {
    if tags.contains(tag) {
        tags
    } else {
        tags.push(tag)
    }
}

/// `tags` with the keyword `word` added: trimmed, and left out where it is
/// empty or there already.
pub open spec fn with_keyword(tags: Seq<Seq<char>>, word: Seq<char>) -> Seq<Seq<char>> {
    if trimmed(word).len() == 0 {
        tags
    } else {
        with_tag(tags, trimmed(word))
    }
}

/// `tags` with the keywords `words[i..]` added in order.
pub open spec fn with_keywords(tags: Seq<Seq<char>>, words: Seq<Seq<char>>, i: int) -> Seq<
    Seq<char>,
>
    decreases words.len() - i,
{
    if !(0 <= i < words.len()) {
        tags
    } else {
        with_keywords(with_keyword(tags, words[i]), words, i + 1)
    }
}

/// Adding a tag keeps the tags distinct.
pub proof fn lemma_with_tag_distinct(tags: Seq<Seq<char>>, tag: Seq<char>)
    requires
        distinct(tags),
    ensures
        distinct(with_tag(tags, tag)),
{
    if !tags.contains(tag) {
        let t = tags.push(tag);
        assert forall|i: int, j: int| 0 <= i < j < t.len() implies t[i] != t[j] by {
            if j == tags.len() {
                assert(tags.contains(tags[i]));
            }
        }
    }
}

/// Adding keywords keeps the tags distinct.
pub proof fn lemma_with_keywords_distinct(tags: Seq<Seq<char>>, words: Seq<Seq<char>>, i: int)
    requires
        distinct(tags),
    ensures
        distinct(with_keywords(tags, words, i)),
    decreases words.len() - i,
{
    if 0 <= i < words.len() {
        lemma_with_tag_distinct(tags, trimmed(words[i]));
        lemma_with_keywords_distinct(with_keyword(tags, words[i]), words, i + 1);
    }
}

/// A labelled line of the metadata block, or nothing where the value is
/// missing or empty.
pub open spec fn labelled_line(label: Seq<char>, value: Option<Seq<char>>) -> Seq<char> {
    match value {
        Some(v) => if v.len() > 0 {
            label + v + "\n"@
        } else {
            Seq::empty()
        },
        None => Seq::empty(),
    }
}

impl Metadata {
    /// The empty metadata.
    pub open spec fn empty() -> Metadata {
        Metadata {
            title: None,
            author: None,
            date: None,
            description: None,
            tags: Seq::empty(),
            author_is_final: false,
            description_is_final: false,
        }
    }

    /// The invariant of the metadata: no tag twice.
    pub open spec fn wf(self) -> bool {
        distinct(self.tags)
    }

    /// The metadata once an Open Graph property with `content` was read. The
    /// first title, description, author and date win; a description or author
    /// that a plain tag gave is replaced; a tag is added unless it is there.
    pub open spec fn with_property(self, property: Seq<char>, content: Seq<char>) -> Metadata {
        if property == "og:title"@ {
            if self.title is None {
                Metadata { title: Some(content), ..self }
            } else {
                self
            }
        } else if property == "og:description"@ {
            if !self.description_is_final {
                Metadata { description: Some(content), description_is_final: true, ..self }
            } else {
                self
            }
        } else if property == "article:author"@ {
            if !self.author_is_final {
                Metadata { author: Some(content), author_is_final: true, ..self }
            } else {
                self
            }
        } else if property == "article:published_time"@ {
            if self.date is None {
                Metadata { date: Some(content), ..self }
            } else {
                self
            }
        } else if property == "article:tag"@ {
            Metadata { tags: with_tag(self.tags, content), ..self }
        } else {
            self
        }
    }

    /// The metadata once a plain `name` tag with `content` was read. A
    /// description or author is taken only where none is known yet; keywords
    /// are split at commas and added as tags.
    pub open spec fn with_name(self, name: Seq<char>, content: Seq<char>) -> Metadata {
        if name == "description"@ {
            if self.description is None {
                Metadata { description: Some(content), ..self }
            } else {
                self
            }
        } else if name == "author"@ {
            if self.author is None {
                Metadata { author: Some(content), ..self }
            } else {
                self
            }
        } else if name == "keywords"@ {
            Metadata { tags: with_keywords(self.tags, split_commas(content), 0), ..self }
        } else {
            self
        }
    }

    /// The metadata once a `meta` element was read whose attributes `property`,
    /// `name` and `content` are these. Without content nothing changes; with a
    /// property the name is not looked at.
    pub open spec fn with_meta(
        self,
        property: Option<Seq<char>>,
        name: Option<Seq<char>>,
        content: Option<Seq<char>>,
    ) -> Metadata {
        match content {
            None => self,
            Some(c) => match property {
                Some(p) => self.with_property(p, c),
                None => match name {
                    Some(n) => self.with_name(n, c),
                    None => self,
                },
            },
        }
    }

    /// The metadata once the text of the document's `<title>` is known: it is
    /// the title unless one is known already.
    pub open spec fn with_document_title(self, title: Option<Seq<char>>) -> Metadata {
        match title {
            Some(t) => if self.title is None {
                Metadata { title: Some(t), ..self }
            } else {
                self
            },
            None => self,
        }
    }

    /// Each of these steps keeps the tags distinct.
    pub proof fn lemma_steps_keep_wf(
        self,
        property: Option<Seq<char>>,
        name: Option<Seq<char>>,
        content: Option<Seq<char>>,
    )
        requires
            self.wf(),
        ensures
            self.with_meta(property, name, content).wf(),
            self.with_document_title(content).wf(),
    {
        if content is Some {
            lemma_with_tag_distinct(self.tags, content->0);
            lemma_with_keywords_distinct(self.tags, split_commas(content->0), 0);
        }
    }

    /// The title line of the block: a level-one heading and a blank line.
    pub open spec fn title_block(self) -> Seq<char> {
        match self.title {
            Some(t) => "# "@ + t + "\n\n"@,
            None => Seq::empty(),
        }
    }

    /// The line of tags, joined by commas, or nothing where there is none.
    pub open spec fn tags_line(self) -> Seq<char> {
        if self.tags.len() > 0 {
            "Tags: "@ + joined_from(self.tags, 0) + "\n"@
        } else {
            Seq::empty()
        }
    }

    /// The metadata block that stands before the body of a page: the title
    /// line where there is a title, then between two rules the author, the
    /// date, the description and the tags as far as they are there, then a
    /// blank line.
    pub open spec fn formatted(self) -> Seq<char> {
        self.title_block() + "---\n"@ + labelled_line("Author: "@, self.author) + labelled_line(
            "Date: "@,
            self.date,
        ) + labelled_line("Description: "@, self.description) + self.tags_line() + "---\n\n"@
    }
}

/// The first writer wins, and Open Graph is preferred. A title or a date
/// that is known stays. A description or an author that an Open Graph
/// property gave stays; one that a plain tag gave stays until an Open Graph
/// property gives another, and no plain tag replaces it. A tag, once there,
/// stays where it is.
pub proof fn theorem_first_writer_wins(m: Metadata, key: Seq<char>, content: Seq<char>)
    ensures
        m.title is Some ==> m.with_property(key, content).title == m.title && m.with_name(
            key,
            content,
        ).title == m.title && m.with_document_title(Some(content)).title == m.title,
        m.date is Some ==> m.with_property(key, content).date == m.date && m.with_name(
            key,
            content,
        ).date == m.date,
        m.description_is_final ==> m.with_property(key, content).description == m.description,
        m.author_is_final ==> m.with_property(key, content).author == m.author,
        m.description is Some ==> m.with_name(key, content).description == m.description,
        m.author is Some ==> m.with_name(key, content).author == m.author,
        m.with_name(key, content).description_is_final == m.description_is_final,
        m.with_name(key, content).author_is_final == m.author_is_final,
        m.description_is_final ==> m.with_property(key, content).description_is_final,
        m.author_is_final ==> m.with_property(key, content).author_is_final,
        m.tags.is_prefix_of(m.with_property(key, content).tags),
        m.tags.is_prefix_of(m.with_name(key, content).tags),
{
    lemma_with_keywords_extend(m.tags, split_commas(content), 0);
}

/// Adding keywords leaves the tags that are there where they are.
pub proof fn lemma_with_keywords_extend(tags: Seq<Seq<char>>, words: Seq<Seq<char>>, i: int)
    ensures
        tags.is_prefix_of(with_keywords(tags, words, i)),
    decreases words.len() - i,
{
    if 0 <= i < words.len() {
        lemma_with_keywords_extend(with_keyword(tags, words[i]), words, i + 1);
    }
}

/// Appends a labelled line for `value` to `buf`.
fn push_labelled_line(buf: &mut Vec<char>, label: &str, value: &Option<String>)
    ensures
        final(buf)@ == old(buf)@ + labelled_line(label@, value.deep_view()),
{
    match value {
        Some(v) => {
            if !v.as_str().is_empty() {
                push_str(buf, label);
                push_str(buf, v.as_str());
                push_str(buf, "\n");
                assert(buf@ == old(buf)@ + (label@ + v@ + "\n"@));
            } else {
                assert(buf@ == old(buf)@ + Seq::<char>::empty());
            }
        },
        None => {
            assert(buf@ == old(buf)@ + Seq::<char>::empty());
        },
    }
}

/// Whether `text` is among `tags`.
pub fn contains_text(tags: &Vec<String>, text: &Vec<char>) -> (r: bool)
    ensures
        r == tags.deep_view().contains(text@),
{
    let mut i: usize = 0;
    while i < tags.len()
        invariant
            i <= tags.len(),
            forall|k: int| 0 <= k < i ==> tags.deep_view()[k] != text@,
        decreases tags.len() - i,
    {
        if chars_eq_str(text, tags[i].as_str()) {
            assert(tags.deep_view()[i as int] == text@);
            return true;
        }
        i += 1;
    }
    false
}

/// Adds `text` to `tags` unless it is there already.
pub fn add_tag(tags: &mut Vec<String>, text: &Vec<char>)
    ensures
        final(tags).deep_view() == with_tag(old(tags).deep_view(), text@),
{
    if !contains_text(tags, text) {
        tags.push(to_string(text));
        assert(tags.deep_view() =~= old(tags).deep_view().push(text@));
    }
}

/// The pieces of `v` between its commas.
pub fn split_at_commas(v: &Vec<char>) -> (pieces: Vec<Vec<char>>)
    ensures
        pieces.deep_view() == split_commas(v@),
{
    let mut pieces: Vec<Vec<char>> = Vec::new();
    let mut current: Vec<char> = Vec::new();
    let mut start: usize = 0;
    let mut i: usize = 0;
    assert(pieces.deep_view() =~= Seq::<Seq<char>>::empty());
    while i < v.len()
        invariant
            start <= i <= v.len(),
            current@ == v@.subrange(start as int, i as int),
            pieces.deep_view() + split_from(v@, start as int, i as int) == split_commas(v@),
        decreases v.len() - i,
    {
        let ghost before = pieces.deep_view();
        let ghost rest = split_from(v@, start as int, i as int);
        if v[i] == ',' {
            let ghost shorter = pieces;
            pieces.push(current);
            proof {
                lemma_push_deep_view(shorter, pieces, current);
            }
            current = Vec::new();
            start = i + 1;
            assert(current@ == v@.subrange(start as int, start as int));
        } else {
            current.push(v[i]);
            assert(current@ == v@.subrange(start as int, i + 1));
        }
        i += 1;
        assert(pieces.deep_view() + split_from(v@, start as int, i as int) == before + rest);
    }
    let ghost before = pieces.deep_view();
    let ghost shorter = pieces;
    pieces.push(current);
    proof {
        lemma_push_deep_view(shorter, pieces, current);
    }
    assert(before.push(v@.subrange(start as int, v@.len() as int)) == before + seq![
        v@.subrange(start as int, v@.len() as int),
    ]);
    pieces
}

impl MetadataHandler {
    /// Metadata with nothing known yet.
    pub fn new() -> (handler: MetadataHandler)
        ensures
            handler@ == Metadata::empty(),
            handler@.wf(),
    {
        let handler = MetadataHandler {
            title: None,
            author: None,
            date: None,
            description: None,
            tags: Vec::new(),
            author_is_final: false,
            description_is_final: false,
            metadata_buffer: String::new(),
        };
        assert(handler.tags.deep_view() == Seq::<Seq<char>>::empty());
        handler
    }

    /// Takes in an Open Graph property of a `meta` element.
    pub fn record_property(&mut self, property: &str, content: &str)
        ensures
            final(self)@ == old(self)@.with_property(property@, content@),
            old(self)@.wf() ==> final(self)@.wf(),
    {
        proof {
            if self@.wf() {
                self@.lemma_steps_keep_wf(Some(property@), None, Some(content@));
            }
        }
        if str_eq(property, "og:title") {
            if self.title.is_none() {
                self.title = Some(content.to_owned());
            }
        } else if str_eq(property, "og:description") {
            if !self.description_is_final {
                self.description = Some(content.to_owned());
                self.description_is_final = true;
            }
        } else if str_eq(property, "article:author") {
            if !self.author_is_final {
                self.author = Some(content.to_owned());
                self.author_is_final = true;
            }
        } else if str_eq(property, "article:published_time") {
            if self.date.is_none() {
                self.date = Some(content.to_owned());
            }
        } else if str_eq(property, "article:tag") {
            let text = to_chars(content);
            add_tag(&mut self.tags, &text);
        }
    }

    /// Takes in a plain `name` tag of a `meta` element.
    pub fn record_name(&mut self, name: &str, content: &str)
        ensures
            final(self)@ == old(self)@.with_name(name@, content@),
            old(self)@.wf() ==> final(self)@.wf(),
    {
        proof {
            if self@.wf() {
                self@.lemma_steps_keep_wf(None, Some(name@), Some(content@));
            }
        }
        if str_eq(name, "description") {
            if self.description.is_none() {
                self.description = Some(content.to_owned());
            }
        } else if str_eq(name, "author") {
            if self.author.is_none() {
                self.author = Some(content.to_owned());
            }
        } else if str_eq(name, "keywords") {
            let text = to_chars(content);
            let words = split_at_commas(&text);
            let mut i: usize = 0;
            while i < words.len()
                invariant
                    i <= words.len(),
                    words.deep_view() == split_commas(content@),
                    with_keywords(self.tags.deep_view(), words.deep_view(), i as int)
                        == with_keywords(old(self).tags.deep_view(), words.deep_view(), 0),
                    self.title == old(self).title,
                    self.author == old(self).author,
                    self.date == old(self).date,
                    self.description == old(self).description,
                    self.author_is_final == old(self).author_is_final,
                    self.description_is_final == old(self).description_is_final,
                decreases words.len() - i,
            {
                let word = trim(&words[i]);
                proof {
                    lemma_chars_deep_view(words[i as int]);
                }
                if word.len() > 0 {
                    add_tag(&mut self.tags, &word);
                }
                i += 1;
            }
        }
    }

    /// Takes in the text of the document's `<title>`, if there is one.
    pub fn record_document_title(&mut self, title: Option<String>)
        ensures
            final(self)@ == old(self)@.with_document_title(title.deep_view()),
            old(self)@.wf() ==> final(self)@.wf(),
    {
        match title {
            Some(t) => {
                if self.title.is_none() {
                    self.title = Some(t);
                }
            },
            None => {},
        }
    }

    /// Writes the metadata block and hands it out. The metadata stays as it was.
    pub fn format_metadata(&mut self) -> (block: &str)
        ensures
            block@ == old(self)@.formatted(),
            final(self)@ == old(self)@,
    {
        let mut buf: Vec<char> = Vec::new();
        match &self.title {
            Some(t) => {
                push_str(&mut buf, "# ");
                push_str(&mut buf, t.as_str());
                push_str(&mut buf, "\n\n");
                assert(buf@ == "# "@ + t@ + "\n\n"@);
            },
            None => {},
        }
        assert(buf@ == self@.title_block());
        push_str(&mut buf, "---\n");
        push_labelled_line(&mut buf, "Author: ", &self.author);
        push_labelled_line(&mut buf, "Date: ", &self.date);
        push_labelled_line(&mut buf, "Description: ", &self.description);
        let ghost head = buf@;
        if self.tags.len() > 0 {
            push_str(&mut buf, "Tags: ");
            let ghost start = buf@;
            let mut i: usize = 0;
            while i < self.tags.len()
                invariant
                    i <= self.tags.len(),
                    buf@ + joined_from(self.tags.deep_view(), i as int) == start + joined_from(
                        self.tags.deep_view(),
                        0,
                    ),
                decreases self.tags.len() - i,
            {
                let ghost before = buf@;
                let ghost rest = joined_from(self.tags.deep_view(), i as int);
                if i > 0 {
                    push_str(&mut buf, ", ");
                }
                push_str(&mut buf, self.tags[i].as_str());
                i += 1;
                assert(buf@ + joined_from(self.tags.deep_view(), i as int) == before + rest);
            }
            assert(buf@ + Seq::<char>::empty() == buf@);
            push_str(&mut buf, "\n");
            assert(buf@ == head + ("Tags: "@ + joined_from(self.tags.deep_view(), 0) + "\n"@));
        } else {
            assert(buf@ == head + Seq::<char>::empty());
        }
        assert(buf@ == head + self@.tags_line());
        push_str(&mut buf, "---\n\n");
        self.metadata_buffer = to_string(&buf);
        self.metadata_buffer.as_str()
    }
}

} // verus!
