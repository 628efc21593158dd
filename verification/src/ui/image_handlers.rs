//! What the browser asks of the image pipeline.

use crate::dispatcher::{admitted, enqueue, tick};
use crate::loading_gate::LoadingGate;
use crate::pending_queue::PendingQueue;
use crate::result_table::ResultTable;
use crate::ui::app::{says, WarThunderCamoInstaller};
use vstd::prelude::*;

verus! {

/// Called once for every frame: starts a fetch round if none is in flight
/// and keys are waiting. Returns the round's batch, which is to be resolved
/// off the calling thread, or `None` where no round starts.
pub fn update_image_grid(gate: &mut LoadingGate, queue: &mut PendingQueue) -> (batch: Option<
    Vec<String>,
>)
    ensures
        batch is Some <==> !old(gate).is_set() && old(queue)@.len() > 0,
        match batch {
            Some(keys) => {
                &&& keys.deep_view() == old(queue)@
                &&& keys.deep_view().no_duplicates()
                &&& final(queue)@.len() == 0
                &&& final(gate).is_set()
            },
            None => {
                &&& final(queue)@ == old(queue)@
                &&& final(gate).is_set() == old(gate).is_set()
            },
        },
{
    tick(gate, queue)
}

/// Asks for the images of the selected camouflage: each of its URLs joins
/// the queue unless its image is resolved or it waits already.
pub fn load_current_camo_images<H>(
    app: &WarThunderCamoInstaller,
    images: &ResultTable<H>,
    queue: &mut PendingQueue,
)
    ensures
        final(queue)@ == match app.current_camo {
            Some(camo) => admitted(old(queue)@, images@.dom(), camo.image_urls.deep_view()),
            None => old(queue)@,
        },
{
    match &app.current_camo {
        Some(camo) => enqueue(queue, images, &camo.image_urls),
        None => {},
    }
}

/// Reports how the clearing of the byte cache went. Neither the resolved
/// images nor the waiting keys are touched by it.
pub fn clear_cache(app: &mut WarThunderCamoInstaller, outcome: Result<(), String>)
    ensures
        match outcome {
            Ok(_) => says(final(app).error_message, "Cache cleared successfully"@),
            Err(cause) => says(final(app).error_message, "Failed to clear cache: "@ + cause@),
        },
        *final(app) == (WarThunderCamoInstaller {
            error_message: final(app).error_message,
            ..*old(app)
        }),
{
    match outcome {
        Ok(_) => {
            app.error_message = Some(String::from_str("Cache cleared successfully"));
        },
        Err(cause) => {
            app.error_message = Some(
                String::from_str("Failed to clear cache: ").concat(cause.as_str()),
            );
        },
    }
}

} // verus!
