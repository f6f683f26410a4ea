//! The query endpoint's compute path.
//!
//! The web layer owns routing, status codes and the transport; what it serves
//! is computed here: select today's raw samples, render each as a JSON
//! object, and stream them as one JSON array in bounded batches.

use vstd::prelude::*;

use crate::db::{power_today_rows, select_power_today, PowerToday, Store};
use crate::render::{render_power_today, spec_render_power_today};
use crate::responder::{concat_chunks, render_array, stream_rows, views_of};

verus! {

/// The renderings of a sequence of raw query rows, in order.
pub open spec fn rendered_rows(ps: Seq<PowerToday>) -> Seq<Seq<u8>>
    decreases ps.len(),
{
    if ps.len() == 0 {
        Seq::empty()
    } else {
        rendered_rows(ps.drop_last()).push(spec_render_power_today(ps.last()))
    }
}

/// The rendered rows of today's raw-samples query.
pub open spec fn rendered_power_today(rows: Seq<crate::db::Model>, today: i64) -> Seq<Seq<u8>> {
    rendered_rows(power_today_rows(rows, today))
}

/// Serve today's raw samples: select them, render each one, and stream them
/// as one JSON array in batches of at most `batch` rows. The chunks
/// concatenate to exactly the array of today's rows in stored order.
#[verifier::rlimit(50)]
pub fn power_today(db: &Store, today: i64, batch: usize) -> (chunks: Vec<Vec<u8>>)
    requires
        db.wf(),
        batch >= 1,
    ensures
        concat_chunks(chunks@) == render_array(rendered_power_today(db.rows(), today)),
        chunks@.len() == power_today_rows(db.rows(), today).len() as int / batch as int + 1,
{
    let rows = select_power_today(db, today);
    let mut rendered: Vec<Vec<u8>> = Vec::new();
    let mut i: usize = 0;
    while i < rows.len()
        invariant
            db.wf(),
            rows@ == power_today_rows(db.rows(), today),
            i <= rows@.len(),
            rendered@.len() == i,
            views_of(rendered@) == rendered_rows(rows@.take(i as int)),
        decreases rows@.len() - i,
    {
        let ghost pre = rows@.take(i as int);
        let ghost post = rows@.take(i as int + 1);
        proof {
            assert(post.drop_last() =~= pre);
            assert(post.last() == rows@[i as int]);
            // The row projects a well-formed stored row, so its timestamp is
            // in the renderable range.
            let ra = crate::laws::power_today_origin(db.rows(), today, i as int);
            assert(db.rows()[ra].wf());
            assert(0 <= rows@[i as int].time <= crate::calendar::MAX_TIME);
        }
        let v = render_power_today(&rows[i]);
        let ghost rend = rendered@;
        proof {
            assert(rend.push(v).drop_last() =~= rend);
        }
        rendered.push(v);
        i += 1;
    }
    proof {
        assert(rows@.take(rows@.len() as int) =~= rows@);
    }
    stream_rows(&rendered, batch)
}

} // verus!
