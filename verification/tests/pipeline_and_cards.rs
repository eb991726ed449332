use base64::Engine;
use sitegen::cards::{
    blogpost, blogpost_to_card, experiment_to_card, index, BlogMetadata, ExperimentMetadata, Link,
};
use sitegen::date::Date;
use sitegen::pipeline::{placeholder_from_pixels, srcset_resolutions};

fn solid_pixels(w: u32, h: u32, rgba: [u8; 4]) -> Vec<u8> {
    let mut v = Vec::new();
    for _ in 0..(w * h) {
        v.extend_from_slice(&rgba);
    }
    v
}

#[test]
fn resolutions_are_one_and_two() {
    assert_eq!(srcset_resolutions(), vec![1, 2]);
}

#[test]
fn placeholder_is_nonempty_base64() {
    let pixels = solid_pixels(8, 8, [200, 30, 30, 255]);
    let ph = placeholder_from_pixels(8, 8, &pixels);
    assert!(!ph.is_empty());
    let text = String::from_utf8(ph.clone()).unwrap();
    let decoded = base64::engine::general_purpose::STANDARD
        .decode(&text)
        .unwrap();
    assert!(decoded.len() >= 5);
}

#[test]
fn placeholder_is_deterministic() {
    let a = placeholder_from_pixels(4, 4, &solid_pixels(4, 4, [10, 200, 50, 255]));
    let b = placeholder_from_pixels(4, 4, &solid_pixels(4, 4, [10, 200, 50, 255]));
    assert_eq!(a, b);
}

#[test]
fn placeholder_reflects_pixel_content() {
    let red = placeholder_from_pixels(4, 4, &solid_pixels(4, 4, [255, 0, 0, 255]));
    let blue = placeholder_from_pixels(4, 4, &solid_pixels(4, 4, [0, 0, 255, 255]));
    assert_ne!(red, blue);
}

#[test]
fn placeholder_is_a_hash_not_the_pixels() {
    let pixels = solid_pixels(4, 4, [1, 2, 3, 255]);
    let ph = placeholder_from_pixels(4, 4, &pixels);
    let raw_b64 = base64::engine::general_purpose::STANDARD
        .encode(&pixels)
        .into_bytes();
    assert_ne!(ph, raw_b64);
}

#[test]
fn blogpost_card_fields() {
    let meta = BlogMetadata {
        title: b"T".to_vec(),
        summary: b"S".to_vec(),
        date: Date { year: 2022, month: 6, day: 1 },
        img_url: b"/i.png".to_vec(),
        img_alt: b"alt".to_vec(),
        tags: vec![b"t1".to_vec()],
        hidden: false,
        seo_description: b"D".to_vec(),
        path: b"/post".to_vec(),
    };
    let card = blogpost_to_card(meta);
    assert_eq!(card.title, b"T".to_vec());
    assert_eq!(card.content, b"S".to_vec());
    assert_eq!(card.links_to, b"/post".to_vec());
    assert_eq!(card.img_url, b"/i.png".to_vec());
    assert_eq!(card.img_alt, b"alt".to_vec());
    assert_eq!(card.date, Some(Date { year: 2022, month: 6, day: 1 }));
    assert!(card.links.is_empty());
}

#[test]
fn experiment_card_links_to_first_url() {
    let meta = ExperimentMetadata {
        summary: b"S".to_vec(),
        title: b"T".to_vec(),
        date: Date { year: 2021, month: 1, day: 2 },
        img_url: b"/e.png".to_vec(),
        img_alt: b"alt".to_vec(),
        urls: vec![
            Link { href: b"https://one".to_vec(), label: b"one".to_vec(), icon: b"fas fa-comment".to_vec() },
            Link { href: b"https://two".to_vec(), label: b"two".to_vec(), icon: b"fab fa-github".to_vec() },
        ],
    };
    let card = experiment_to_card(meta);
    assert_eq!(card.links_to, b"https://one".to_vec());
    assert_eq!(card.links.len(), 2);
    assert_eq!(card.links[1].href, b"https://two".to_vec());
}

#[test]
fn blogpost_page_model() {
    let meta = BlogMetadata {
        title: b"T".to_vec(),
        summary: b"S".to_vec(),
        date: Date { year: 2022, month: 6, day: 1 },
        img_url: b"/i.png".to_vec(),
        img_alt: b"alt".to_vec(),
        tags: vec![],
        hidden: false,
        seo_description: b"D".to_vec(),
        path: b"/post".to_vec(),
    };
    let root = blogpost(meta, b"<p>body</p>".to_vec());
    assert_eq!(root.title, b"T".to_vec());
    assert_eq!(root.description, b"D".to_vec());
    assert_eq!(root.canonical_origin, b"https://angusjf.com".to_vec());
    assert!(root.index.is_none());
    let blog = root.blog.unwrap();
    assert_eq!(blog.content, b"<p>body</p>".to_vec());
    assert_eq!(blog.date, Date { year: 2022, month: 6, day: 1 });
}

#[test]
fn index_page_model() {
    let root = index(vec![]);
    assert_eq!(root.title, b"Angus Findlay".to_vec());
    assert_eq!(root.description, b"Angus Findlay's Blog - angusjf".to_vec());
    assert_eq!(root.img_url, b"/images/plants.webp".to_vec());
    assert_eq!(root.path, b"".to_vec());
    assert!(root.blog.is_none());
    assert!(root.index.unwrap().cards.is_empty());
}
