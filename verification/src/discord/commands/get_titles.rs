//! How the titles of a disc are shown.
use crate::decimal::{decimal_digits, push_decimal};
use crate::makemkv::disc_report::{title_views, Title, TitleModel};
use crate::text::{push_text, text_of, texts};
use vstd::prelude::*;
use vstd::utf8::encode_utf8;

verus! {

/// The length in bytes that a page of titles has to pass to be closed.
pub const PAGE_LIMIT: usize = 1000;

/// What a page says of one title.
pub open spec fn title_entry(title: TitleModel) -> Seq<char> {
    "**Title "@ + decimal_digits(title.title_id as nat) + "**\nDuration: "@ + title.length
        + "\nChapters: "@ + decimal_digits(title.chapters as nat) + "\nSize: "@ + title.size
        + "\nResolution: "@ + title.resolution + "\nFrame Rate: "@ + title.frame_rate + "\n\n"@
}

/// Pages that are closed, and the page that still takes titles.
pub struct Paging {
    pub closed: Seq<Seq<char>>,
    pub open: Seq<char>,
}

/// The titles set on pages: each title goes on the open page, and a page
/// that has passed the limit is closed.
pub open spec fn paged(titles: Seq<TitleModel>) -> Paging
    decreases titles.len(),
{
    if titles.len() == 0 {
        Paging { closed: Seq::empty(), open: Seq::empty() }
    } else {
        let before = paged(titles.drop_last());
        let page = before.open + title_entry(titles.last());
        if encode_utf8(page).len() > PAGE_LIMIT {
            Paging { closed: before.closed.push(page), open: Seq::empty() }
        } else {
            Paging { closed: before.closed, open: page }
        }
    }
}

/// The pages that show the titles: the closed pages, and the open page
/// where something is on it.
pub open spec fn title_pages(titles: Seq<TitleModel>) -> Seq<Seq<char>> {
    let paging = paged(titles);
    if paging.open.len() > 0 {
        paging.closed.push(paging.open)
    } else {
        paging.closed
    }
}

fn push_entry(out: &mut Vec<char>, title: &Title)
    ensures
        final(out)@ == old(out)@ + title_entry(title@),
{
    let ghost start = out@;
    push_text(out, "**Title ");
    push_decimal(out, title.title_id as u64);
    push_text(out, "**\nDuration: ");
    push_text(out, title.length.as_str());
    push_text(out, "\nChapters: ");
    push_decimal(out, title.chapters as u64);
    push_text(out, "\nSize: ");
    push_text(out, title.size.as_str());
    push_text(out, "\nResolution: ");
    push_text(out, title.resolution.as_str());
    push_text(out, "\nFrame Rate: ");
    push_text(out, title.frame_rate.as_str());
    push_text(out, "\n\n");
    assert(out@ == start + title_entry(title@));
}

/// The pages that show `titles`.
pub fn run(titles: &Vec<Title>) -> (r: Vec<String>)
    ensures
        texts(r@) == title_pages(title_views(titles@)),
{
    let mut closed: Vec<String> = Vec::new();
    let mut open: Vec<char> = Vec::new();
    let mut i: usize = 0;
    let ghost all = title_views(titles@);
    assert(all.take(0).len() == 0);
    assert(texts(closed@) == Seq::<Seq<char>>::empty());
    while i < titles.len()
        invariant
            i <= titles.len(),
            all == title_views(titles@),
            texts(closed@) == paged(all.take(i as int)).closed,
            open@ == paged(all.take(i as int)).open,
        decreases titles.len() - i,
    {
        assert(all.take(i + 1).drop_last() == all.take(i as int));
        assert(all.take(i + 1).last() == titles[i as int]@);
        push_entry(&mut open, &titles[i]);
        let page = text_of(&open);
        if page.as_str().as_bytes().len() > PAGE_LIMIT {
            let ghost before = texts(closed@);
            closed.push(page);
            assert(texts(closed@) == before.push(open@));
            open = Vec::new();
        }
        i += 1;
    }
    assert(all.take(i as int) == all);
    if open.len() > 0 {
        let ghost before = texts(closed@);
        closed.push(text_of(&open));
        assert(texts(closed@) == before.push(open@));
    }
    closed
}

} // verus!
