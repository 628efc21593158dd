//! The pages of the list of camouflages in the detailed view.

use crate::pending_queue::PendingQueue;
use crate::result_table::ResultTable;
use crate::ui::app::WarThunderCamoInstaller;
use crate::ui::navigation_handlers::selected_from_results;
use vstd::prelude::*;

verus! {

/// The part of a list of `total` items that page `current_page` shows, with
/// `items_per_page` items on a page: from the first bound up to, and without,
/// the second. `None` where the page would begin behind the list.
pub fn page_bounds(current_page: usize, items_per_page: usize, total: usize) -> (bounds: Option<
    (usize, usize),
>)
    ensures
        bounds is Some <==> current_page * items_per_page <= total,
        bounds matches Some((start, end)) ==> {
            &&& start == current_page * items_per_page
            &&& end == if start + items_per_page <= total {
                start + items_per_page
            } else {
                total as int
            }
        },
{
    let start = match current_page.checked_mul(items_per_page) {
        Some(start) => start,
        None => {
            return None;
        },
    };
    if start > total {
        return None;
    }
    let end = if items_per_page <= total - start {
        start + items_per_page
    } else {
        total
    };
    Some((start, end))
}

/// The number of pages that a list of `total` items fills: the least number
/// of pages that hold them all. `None` where a page holds no item.
pub fn page_count(total: usize, items_per_page: usize) -> (pages: Option<usize>)
    ensures
        pages is Some <==> items_per_page > 0,
        pages matches Some(count) ==> (count - 1) * items_per_page < total <= count
            * items_per_page,
{
    if items_per_page == 0 {
        None
    } else if total == 0 {
        assert((0 - 1) * items_per_page < 0) by (nonlinear_arith)
            requires
                items_per_page > 0,
        ;
        Some(0)
    } else {
        let full = (total - 1) / items_per_page;
        assert(full * items_per_page <= total - 1 < (full + 1) * items_per_page) by (
            nonlinear_arith)
            requires
                items_per_page > 0,
                full == (total - 1) / (items_per_page as int),
                total >= 1,
        ;
        Some(full + 1)
    }
}

/// Turns back one page, unless the first page is shown.
pub fn previous_page(app: &mut WarThunderCamoInstaller)
    ensures
        *final(app) == (WarThunderCamoInstaller {
            current_page: if old(app).current_page > 0 {
                (old(app).current_page - 1) as usize
            } else {
                0
            },
            ..*old(app)
        }),
{
    if app.current_page > 0 {
        app.current_page -= 1;
    }
}

/// Turns one page on, if the list goes on behind `end_index`, the end of the
/// page that is shown.
pub fn next_page(app: &mut WarThunderCamoInstaller, end_index: usize)
    ensures
        *final(app) == (WarThunderCamoInstaller {
            current_page: if end_index < old(app).search_results.len() && old(app).current_page
                < usize::MAX {
                (old(app).current_page + 1) as usize
            } else {
                old(app).current_page
            },
            ..*old(app)
        }),
{
    if end_index < app.search_results.len() && app.current_page < usize::MAX {
        app.current_page += 1;
    }
}

/// Selects the record at `index` of the list, if the catalogue and the list
/// reach that far; else nothing changes.
pub fn go_to_index<H>(
    app: &mut WarThunderCamoInstaller,
    index: usize,
    images: &mut ResultTable<H>,
    queue: &mut PendingQueue,
)
    ensures
        if index < old(app).total_camos && index < old(app).search_results.len() {
            selected_from_results(*old(app), *final(app), index, final(images)@, final(queue)@)
        } else {
            &&& *final(app) == *old(app)
            &&& final(images)@ == old(images)@
            &&& final(queue)@ == old(queue)@
        },
{
    if index < app.total_camos && index < app.search_results.len() {
        let camo = app.search_results[index].clone();
        app.set_current_camo(index, camo, images, queue);
    }
}

} // verus!
