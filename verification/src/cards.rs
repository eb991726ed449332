//! The page model: cards assembled from content records, and the root
//! page model handed to the external template renderer.

use vstd::prelude::*;
use crate::date::Date;

verus! {

/// An outbound link of a card, with its icon's class list.
pub struct Link {
    pub href: Vec<u8>,
    pub label: Vec<u8>,
    pub icon: Vec<u8>,
}

/// One card of the index page.
pub struct Card {
    pub img_url: Vec<u8>,
    pub img_alt: Vec<u8>,
    pub title: Vec<u8>,
    pub content: Vec<u8>,
    pub links_to: Vec<u8>,
    pub date: Option<Date>,
    pub links: Vec<Link>,
}

/// The YAML front matter of a blog post.
pub struct BlogMetadata {
    pub title: Vec<u8>,
    pub summary: Vec<u8>,
    pub date: Date,
    pub img_url: Vec<u8>,
    pub img_alt: Vec<u8>,
    pub tags: Vec<Vec<u8>>,
    pub hidden: bool,
    pub seo_description: Vec<u8>,
    pub path: Vec<u8>,
}

/// One experiment record.
pub struct ExperimentMetadata {
    pub summary: Vec<u8>,
    pub title: Vec<u8>,
    pub date: Date,
    pub img_url: Vec<u8>,
    pub img_alt: Vec<u8>,
    pub urls: Vec<Link>,
}

/// The blog part of a root page model.
pub struct Blog {
    pub content: Vec<u8>,
    pub date: Date,
}

/// The index part of a root page model.
pub struct Index {
    pub cards: Vec<Card>,
}

/// The model of one rendered page.
pub struct Root {
    pub title: Vec<u8>,
    pub img_url: Vec<u8>,
    pub img_alt: Vec<u8>,
    pub canonical_origin: Vec<u8>,
    pub path: Vec<u8>,
    pub description: Vec<u8>,
    pub index: Option<Index>,
    pub blog: Option<Blog>,
}

/// `Angus Findlay`
pub open spec fn lit_title() -> Seq<u8> {
    seq![('A' as u8), ('n' as u8), ('g' as u8), ('u' as u8), ('s' as u8), (' ' as u8), ('F' as u8), ('i' as u8), ('n' as u8), ('d' as u8), ('l' as u8), ('a' as u8), ('y' as u8)]
}

/// `Angus Findlay`
pub fn title_text() -> (r: Vec<u8>)
    ensures
        r@ == lit_title(),
{
    let v: Vec<u8> = vec![('A' as u8), ('n' as u8), ('g' as u8), ('u' as u8), ('s' as u8), (' ' as u8), ('F' as u8), ('i' as u8), ('n' as u8), ('d' as u8), ('l' as u8), ('a' as u8), ('y' as u8)];
    assert(v@ =~= lit_title());
    v
}

/// `Angus Findlay's Blog - angusjf`
pub open spec fn lit_description() -> Seq<u8> {
    seq![('A' as u8), ('n' as u8), ('g' as u8), ('u' as u8), ('s' as u8), (' ' as u8), ('F' as u8), ('i' as u8), ('n' as u8), ('d' as u8), ('l' as u8), ('a' as u8), ('y' as u8), (39u8), ('s' as u8), (' ' as u8), ('B' as u8), ('l' as u8), ('o' as u8), ('g' as u8), (' ' as u8), ('-' as u8), (' ' as u8), ('a' as u8), ('n' as u8), ('g' as u8), ('u' as u8), ('s' as u8), ('j' as u8), ('f' as u8)]
}

/// `Angus Findlay's Blog - angusjf`
pub fn description_text() -> (r: Vec<u8>)
    ensures
        r@ == lit_description(),
{
    let v: Vec<u8> = vec![('A' as u8), ('n' as u8), ('g' as u8), ('u' as u8), ('s' as u8), (' ' as u8), ('F' as u8), ('i' as u8), ('n' as u8), ('d' as u8), ('l' as u8), ('a' as u8), ('y' as u8), (39u8), ('s' as u8), (' ' as u8), ('B' as u8), ('l' as u8), ('o' as u8), ('g' as u8), (' ' as u8), ('-' as u8), (' ' as u8), ('a' as u8), ('n' as u8), ('g' as u8), ('u' as u8), ('s' as u8), ('j' as u8), ('f' as u8)];
    assert(v@ =~= lit_description());
    v
}

/// `https://angusjf.com`
pub open spec fn lit_canonical_origin() -> Seq<u8> {
    seq![('h' as u8), ('t' as u8), ('t' as u8), ('p' as u8), ('s' as u8), (':' as u8), ('/' as u8), ('/' as u8), ('a' as u8), ('n' as u8), ('g' as u8), ('u' as u8), ('s' as u8), ('j' as u8), ('f' as u8), ('.' as u8), ('c' as u8), ('o' as u8), ('m' as u8)]
}

/// `https://angusjf.com`
pub fn canonical_origin_text() -> (r: Vec<u8>)
    ensures
        r@ == lit_canonical_origin(),
{
    let v: Vec<u8> = vec![('h' as u8), ('t' as u8), ('t' as u8), ('p' as u8), ('s' as u8), (':' as u8), ('/' as u8), ('/' as u8), ('a' as u8), ('n' as u8), ('g' as u8), ('u' as u8), ('s' as u8), ('j' as u8), ('f' as u8), ('.' as u8), ('c' as u8), ('o' as u8), ('m' as u8)];
    assert(v@ =~= lit_canonical_origin());
    v
}

/// `/images/plants.webp`
pub open spec fn lit_root_img() -> Seq<u8> {
    seq![('/' as u8), ('i' as u8), ('m' as u8), ('a' as u8), ('g' as u8), ('e' as u8), ('s' as u8), ('/' as u8), ('p' as u8), ('l' as u8), ('a' as u8), ('n' as u8), ('t' as u8), ('s' as u8), ('.' as u8), ('w' as u8), ('e' as u8), ('b' as u8), ('p' as u8)]
}

/// `/images/plants.webp`
pub fn root_img_text() -> (r: Vec<u8>)
    ensures
        r@ == lit_root_img(),
{
    let v: Vec<u8> = vec![('/' as u8), ('i' as u8), ('m' as u8), ('a' as u8), ('g' as u8), ('e' as u8), ('s' as u8), ('/' as u8), ('p' as u8), ('l' as u8), ('a' as u8), ('n' as u8), ('t' as u8), ('s' as u8), ('.' as u8), ('w' as u8), ('e' as u8), ('b' as u8), ('p' as u8)];
    assert(v@ =~= lit_root_img());
    v
}

/// The card of a blog post: its metadata, linking to the post's path,
/// with no outbound links.
pub fn blogpost_to_card(blogpost: BlogMetadata) -> (r: Card)
    ensures
        r.img_url == blogpost.img_url,
        r.title == blogpost.title,
        r.content == blogpost.summary,
        r.links_to == blogpost.path,
        r.date == Some(blogpost.date),
        r.img_alt == blogpost.img_alt,
        r.links@.len() == 0,
{
    Card {
        img_url: blogpost.img_url,
        title: blogpost.title,
        content: blogpost.summary,
        links_to: blogpost.path,
        date: Some(blogpost.date),
        img_alt: blogpost.img_alt,
        links: Vec::new(),
    }
}

/// The card of an experiment: its metadata, linking to its first URL,
/// keeping every URL as an outbound link.
pub fn experiment_to_card(experiment: ExperimentMetadata) -> (r: Card)
    requires
        experiment.urls@.len() > 0,
    ensures
        r.img_url == experiment.img_url,
        r.title == experiment.title,
        r.content == experiment.summary,
        r.links_to@ == experiment.urls@[0].href@,
        r.date == Some(experiment.date),
        r.img_alt == experiment.img_alt,
        r.links == experiment.urls,
{
    let mut links_to: Vec<u8> = Vec::new();
    crate::text::push_bytes(&mut links_to, experiment.urls[0].href.as_slice());
    assert(links_to@ =~= experiment.urls@[0].href@);
    Card {
        img_url: experiment.img_url,
        title: experiment.title,
        content: experiment.summary,
        links_to,
        date: Some(experiment.date),
        img_alt: experiment.img_alt,
        links: experiment.urls,
    }
}

/// The page model of one blog post.
pub fn blogpost(metadata: BlogMetadata, content: Vec<u8>) -> (r: Root)
    ensures
        r.img_url == metadata.img_url,
        r.img_alt == metadata.img_alt,
        r.canonical_origin@ == lit_canonical_origin(),
        r.path == metadata.path,
        r.description == metadata.seo_description,
        r.title == metadata.title,
        r.index is None,
        r.blog is Some,
        r.blog->Some_0.content == content,
        r.blog->Some_0.date == metadata.date,
{
    Root {
        img_url: metadata.img_url,
        img_alt: metadata.img_alt,
        canonical_origin: canonical_origin_text(),
        path: metadata.path,
        description: metadata.seo_description,
        title: metadata.title,
        index: None,
        blog: Some(Blog { content, date: metadata.date }),
    }
}

/// The page model of the index page over its cards.
pub fn index(cards: Vec<Card>) -> (r: Root)
    ensures
        r.img_url@ == lit_root_img(),
        r.img_alt@ == lit_title(),
        r.canonical_origin@ == lit_canonical_origin(),
        r.path@.len() == 0,
        r.description@ == lit_description(),
        r.title@ == lit_title(),
        r.index is Some,
        r.index->Some_0.cards == cards,
        r.blog is None,
{
    Root {
        img_url: root_img_text(),
        img_alt: title_text(),
        canonical_origin: canonical_origin_text(),
        path: Vec::new(),
        description: description_text(),
        title: title_text(),
        index: Some(Index { cards }),
        blog: None,
    }
}

} // verus!
