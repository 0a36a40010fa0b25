use vstd::prelude::*;
use crate::repository::{ScoringResultRepository, TransactionRepository};
use crate::rng::draw_in_range;
use crate::scoring::{score_wf, Score, SCORE_SCALE};
use crate::transaction::Transaction;

verus! {

/// The message alphabet of a worker's inbound queue: a transaction to
/// process, or the order to stop draining.
#[derive(Debug)]
pub enum WorkerMessage {
    Transaction(Transaction),
    Shutdown,
}

impl Clone for WorkerMessage {
    fn clone(&self) -> (res: Self)
        ensures
            res == *self,
    {
        match self {
            WorkerMessage::Transaction(tx) => WorkerMessage::Transaction(tx.clone()),
            WorkerMessage::Shutdown => WorkerMessage::Shutdown,
        }
    }
}

/// Whether the message is a transaction carrying this id.
pub open spec fn msg_has_id(msg: WorkerMessage, id: Seq<char>) -> bool {
    match msg {
        WorkerMessage::Transaction(tx) => tx.id@ == id,
        WorkerMessage::Shutdown => false,
    }
}

/// How many messages of the queue one worker consumes: everything up to and
/// including the first `Shutdown`, or the whole queue if there is none.
pub open spec fn consumed_len(q: Seq<WorkerMessage>) -> int
    decreases q.len(),
{
    if q.len() == 0 {
        0
    } else if q[0] is Shutdown {
        1
    } else {
        1 + consumed_len(q.drop_first())
    }
}

/// The transaction store left behind when a worker consumes the messages of
/// `q` in order, starting from the records `m`: each transaction message
/// upserts its payload under the payload's id.
pub open spec fn saved_after(
    m: Map<Seq<char>, Transaction>,
    q: Seq<WorkerMessage>,
) -> Map<Seq<char>, Transaction>
    decreases q.len(),
{
    if q.len() == 0 {
        m
    } else {
        match q.last() {
            WorkerMessage::Transaction(tx) => saved_after(m, q.drop_last()).insert(tx.id@, tx),
            WorkerMessage::Shutdown => saved_after(m, q.drop_last()),
        }
    }
}

/// The ids of the transactions among the messages of `q`.
pub open spec fn transaction_ids(q: Seq<WorkerMessage>) -> Set<Seq<char>>
    decreases q.len(),
{
    if q.len() == 0 {
        Set::empty()
    } else {
        match q.last() {
            WorkerMessage::Transaction(tx) => transaction_ids(q.drop_last()).insert(tx.id@),
            WorkerMessage::Shutdown => transaction_ids(q.drop_last()),
        }
    }
}

/// A worker consumes at most the whole queue.
pub proof fn lemma_consumed_len_bounds(q: Seq<WorkerMessage>)
    ensures
        0 <= consumed_len(q) <= q.len(),
    decreases q.len(),
{
    if q.len() > 0 && !(q[0] is Shutdown) {
        lemma_consumed_len_bounds(q.drop_first());
    }
}

/// A queue with no `Shutdown` is drained whole.
pub proof fn lemma_consumed_len_no_shutdown(q: Seq<WorkerMessage>)
    requires
        forall|j: int| 0 <= j < q.len() ==> !(q[j] is Shutdown),
    ensures
        consumed_len(q) == q.len(),
    decreases q.len(),
{
    if q.len() > 0 {
        assert(forall|j: int|
            0 <= j < q.drop_first().len() ==> q.drop_first()[j] == q[j + 1]);
        lemma_consumed_len_no_shutdown(q.drop_first());
    }
}

/// The first `Shutdown` is the last message consumed.
pub proof fn lemma_consumed_len_at_first_shutdown(q: Seq<WorkerMessage>, i: int)
    requires
        0 <= i < q.len(),
        q[i] is Shutdown,
        forall|j: int| 0 <= j < i ==> !(q[j] is Shutdown),
    ensures
        consumed_len(q) == i + 1,
    decreases q.len(),
{
    if i > 0 {
        assert(forall|j: int|
            0 <= j < q.drop_first().len() ==> q.drop_first()[j] == q[j + 1]);
        lemma_consumed_len_at_first_shutdown(q.drop_first(), i - 1);
    }
}

/// An id is among the queue's transaction ids exactly when some message
/// carries it.
pub proof fn lemma_transaction_ids_iff(q: Seq<WorkerMessage>, id: Seq<char>)
    ensures
        transaction_ids(q).contains(id) <==> exists|p: int|
            0 <= p < q.len() && msg_has_id(#[trigger] q[p], id),
    decreases q.len(),
{
    if q.len() > 0 {
        lemma_transaction_ids_iff(q.drop_last(), id);
        if msg_has_id(q.last(), id) {
            assert(msg_has_id(q[q.len() - 1], id));
        } else {
            if exists|p: int| 0 <= p < q.len() && msg_has_id(#[trigger] q[p], id) {
                let p = choose|p: int| 0 <= p < q.len() && msg_has_id(#[trigger] q[p], id);
                assert(q.drop_last()[p] == q[p]);
            }
        }
    }
}

/// Consuming a queue adds to the store exactly the ids of the transactions
/// consumed; nothing else appears and nothing disappears.
pub proof fn lemma_saved_after_dom(m: Map<Seq<char>, Transaction>, q: Seq<WorkerMessage>)
    ensures
        saved_after(m, q).dom() == m.dom() + transaction_ids(q),
    decreases q.len(),
{
    if q.len() == 0 {
        assert(saved_after(m, q).dom() =~= m.dom() + transaction_ids(q));
    } else {
        lemma_saved_after_dom(m, q.drop_last());
        assert(saved_after(m, q).dom() =~= m.dom() + transaction_ids(q));
    }
}

/// Once a `Shutdown` message is processed, the worker consumes nothing that
/// was enqueued after it: a transaction id that no consumed message carries,
/// and that the store did not hold when the worker started, is still absent
/// when the worker stops — however many messages with that id sit in the
/// queue behind the `Shutdown`.
pub proof fn lemma_shutdown_stops_draining(
    m: Map<Seq<char>, Transaction>,
    q: Seq<WorkerMessage>,
    id: Seq<char>,
)
    requires
        !m.contains_key(id),
        forall|p: int| 0 <= p < consumed_len(q) ==> !msg_has_id(#[trigger] q[p], id),
    ensures
        !saved_after(m, q.take(consumed_len(q))).contains_key(id),
{
    lemma_consumed_len_bounds(q);
    let pre = q.take(consumed_len(q));
    assert(forall|p: int| 0 <= p < pre.len() ==> pre[p] == q[p]);
    lemma_transaction_ids_iff(pre, id);
    lemma_saved_after_dom(m, pre);
}

/// Write ordering, on the worker's model of a run: a worker never leaves a
/// score behind whose transaction is missing from the transaction store.
/// If every score id had its transaction when the worker started — as it
/// trivially did over empty stores — then every score id left behind by
/// consuming the messages of `q` (the old ones and one per consumed
/// transaction) has its transaction in the store the run leaves.
pub proof fn lemma_no_score_without_transaction(
    txs: Map<Seq<char>, Transaction>,
    score_ids: Set<Seq<char>>,
    q: Seq<WorkerMessage>,
)
    requires
        score_ids <= txs.dom(),
    ensures
        score_ids + transaction_ids(q) <= saved_after(txs, q).dom(),
{
    lemma_saved_after_dom(txs, q);
}

/// Drive one transaction through the pipeline with its score already in
/// hand: persist the transaction, confirm it is visible, derive the verdict
/// and persist the score. The transaction record is written strictly before
/// the score record with the same id becomes visible.
pub fn process_transaction_with_score<TR: TransactionRepository, SR: ScoringResultRepository>(
    tx_repo: &mut TR,
    score_repo: &mut SR,
    tx: Transaction,
    score: u64,
    threshold: u64,
) -> (sc: Score)
    requires
        old(tx_repo).inv(),
        old(score_repo).inv(),
        score <= SCORE_SCALE,
    ensures
        final(tx_repo).inv(),
        final(score_repo).inv(),
        sc == (Score { id: tx.id, score, is_fraud: score > threshold }),
        final(tx_repo).txs() == old(tx_repo).txs().insert(tx.id@, tx),
        final(score_repo).scores() == old(score_repo).scores().insert(tx.id@, sc),
        final(tx_repo).txs().contains_key(tx.id@),
        old(score_repo).scores().dom() <= old(tx_repo).txs().dom() ==> final(score_repo).scores().dom() <= final(tx_repo).txs().dom(),
{
    let id = tx.id.clone();
    // Write ordering: the transaction is durably recorded before any score
    // write is attempted.
    tx_repo.save(tx);
    // Consistency self-check: re-read the just-saved record. Against a store
    // meeting its contract this cannot come back absent, and that is proved
    // rather than logged.
    let _confirmed = tx_repo.get(id.as_str());
    assert(_confirmed is Some);
    let sc = Score::derive(id, score, threshold);
    score_repo.save(sc.clone());
    proof {
        assert(final(score_repo).scores().dom() =~= old(score_repo).scores().dom().insert(
            tx.id@,
        ));
        if old(score_repo).scores().dom() <= old(tx_repo).txs().dom() {
            assert(final(score_repo).scores().dom() <= final(tx_repo).txs().dom());
        }
    }
    sc
}

/// Drive one transaction through the pipeline as the worker does: draw its
/// fraud score, then persist transaction and score in order. The score is
/// random, so the resulting record is pinned down in everything but its
/// numeric score.
pub fn process_transaction<TR: TransactionRepository, SR: ScoringResultRepository>(
    tx_repo: &mut TR,
    score_repo: &mut SR,
    tx: Transaction,
    threshold: u64,
) -> (sc: Score)
    requires
        old(tx_repo).inv(),
        old(score_repo).inv(),
    ensures
        final(tx_repo).inv(),
        final(score_repo).inv(),
        final(tx_repo).txs() == old(tx_repo).txs().insert(tx.id@, tx),
        sc.id == tx.id,
        sc.score < SCORE_SCALE,
        score_wf(sc, threshold),
        final(score_repo).scores() == old(score_repo).scores().insert(tx.id@, sc),
        old(score_repo).scores().dom() <= old(tx_repo).txs().dom() ==> final(score_repo).scores().dom() <= final(tx_repo).txs().dom(),
{
    let score = draw_in_range(0, SCORE_SCALE - 1);
    process_transaction_with_score(tx_repo, score_repo, tx, score, threshold)
}

/// Consume one message: a transaction is driven through persistence and
/// scoring, a `Shutdown` touches nothing and tells the caller to stop.
pub fn process_message<TR: TransactionRepository, SR: ScoringResultRepository>(
    tx_repo: &mut TR,
    score_repo: &mut SR,
    msg: WorkerMessage,
    threshold: u64,
) -> (proceed: bool)
    requires
        old(tx_repo).inv(),
        old(score_repo).inv(),
    ensures
        final(tx_repo).inv(),
        final(score_repo).inv(),
        proceed == !(msg is Shutdown),
        msg is Shutdown ==> final(tx_repo).txs() == old(tx_repo).txs() && final(score_repo).scores() == old(score_repo).scores(),
        msg matches WorkerMessage::Transaction(tx) ==> final(tx_repo).txs() == old(tx_repo).txs().insert(tx.id@, tx),
        msg matches WorkerMessage::Transaction(tx) ==> exists|sc: Score|
            sc.id == tx.id && #[trigger] score_wf(sc, threshold) && final(score_repo).scores()
                == old(score_repo).scores().insert(tx.id@, sc),
        old(score_repo).scores().dom() <= old(tx_repo).txs().dom() ==> final(score_repo).scores().dom() <= final(tx_repo).txs().dom(),
{
    match msg {
        WorkerMessage::Transaction(tx) => {
            let ghost tx_ghost = tx;
            let sc = process_transaction(tx_repo, score_repo, tx, threshold);
            proof {
                assert(sc.id == tx_ghost.id && score_wf(sc, threshold) && final(score_repo).scores() == old(score_repo).scores().insert(tx_ghost.id@, sc));
            }
            true
        },
        WorkerMessage::Shutdown => false,
    }
}

/// Drain the inbound queue as one worker instance: consume messages strictly
/// in the order received, drive each transaction through persistence and
/// scoring, and stop at the first `Shutdown`, leaving everything behind it
/// untouched. Returns how many messages were consumed.
pub fn run_worker<TR: TransactionRepository, SR: ScoringResultRepository>(
    queue: Vec<WorkerMessage>,
    tx_repo: &mut TR,
    score_repo: &mut SR,
    threshold: u64,
) -> (consumed: usize)
    requires
        old(tx_repo).inv(),
        old(score_repo).inv(),
    ensures
        final(tx_repo).inv(),
        final(score_repo).inv(),
        consumed == consumed_len(queue@),
        final(tx_repo).txs() == saved_after(
            old(tx_repo).txs(),
            queue@.take(consumed_len(queue@)),
        ),
        final(score_repo).scores().dom() == old(score_repo).scores().dom() + transaction_ids(
            queue@.take(consumed_len(queue@)),
        ),
        forall|k: Seq<char>|
            #[trigger] transaction_ids(queue@.take(consumed_len(queue@))).contains(k)
                ==> final(score_repo).scores()[k].id@ == k && score_wf(
                final(score_repo).scores()[k],
                threshold,
            ),
        forall|k: Seq<char>|
            !transaction_ids(queue@.take(consumed_len(queue@))).contains(k) ==> (
            #[trigger] final(score_repo).scores().contains_key(k) <==> old(score_repo).scores().contains_key(k)) && (old(score_repo).scores().contains_key(k) ==> final(score_repo).scores()[k] == old(score_repo).scores()[k]),
        old(score_repo).scores().dom() <= old(tx_repo).txs().dom() ==> final(score_repo).scores().dom() <= final(tx_repo).txs().dom(),
{
    let n = queue.len();
    let mut i: usize = 0;
    let mut proceed = true;
    while proceed && i < n
        invariant
            i <= n,
            n == queue@.len(),
            tx_repo.inv(),
            score_repo.inv(),
            proceed ==> forall|j: int| 0 <= j < i ==> !(queue@[j] is Shutdown),
            !proceed ==> 0 < i && queue@[i - 1] is Shutdown && (forall|j: int|
                0 <= j < i - 1 ==> !(queue@[j] is Shutdown)),
            tx_repo.txs() == saved_after(old(tx_repo).txs(), queue@.take(i as int)),
            score_repo.scores().dom() == old(score_repo).scores().dom() + transaction_ids(
                queue@.take(i as int),
            ),
            forall|k: Seq<char>|
                #[trigger] transaction_ids(queue@.take(i as int)).contains(k)
                    ==> score_repo.scores()[k].id@ == k && score_wf(
                    score_repo.scores()[k],
                    threshold,
                ),
            forall|k: Seq<char>|
                !transaction_ids(queue@.take(i as int)).contains(k) ==> (
                #[trigger] score_repo.scores().contains_key(k) <==> old(score_repo).scores().contains_key(k)) && (old(score_repo).scores().contains_key(k)
                    ==> score_repo.scores()[k] == old(score_repo).scores()[k]),
        decreases n - i,
    {
        let msg = queue[i].clone();
        let ghost prev = queue@.take(i as int);
        let ghost cur = queue@.take(i as int + 1);
        let ghost scores_before = score_repo.scores();
        proof {
            assert(cur.drop_last() =~= prev);
            assert(cur.last() == queue@[i as int]);
        }
        proceed = process_message(tx_repo, score_repo, msg, threshold);
        proof {
            if msg is Shutdown {
                assert(transaction_ids(cur) =~= transaction_ids(prev));
            } else {
                let tx = msg->Transaction_0;
                assert(saved_after(old(tx_repo).txs(), cur) == saved_after(
                    old(tx_repo).txs(),
                    prev,
                ).insert(tx.id@, tx));
                let sc = choose|sc: Score|
                    sc.id == tx.id && #[trigger] score_wf(sc, threshold) && score_repo.scores()
                        == scores_before.insert(tx.id@, sc);
                assert(transaction_ids(cur) =~= transaction_ids(prev).insert(tx.id@));
                assert(score_repo.scores().dom() =~= old(score_repo).scores().dom()
                    + transaction_ids(cur));
            }
        }
        i += 1;
    }
    proof {
        if proceed {
            assert(queue@.take(i as int) =~= queue@);
            lemma_consumed_len_no_shutdown(queue@);
        } else {
            lemma_consumed_len_at_first_shutdown(queue@, i - 1);
        }
        lemma_saved_after_dom(old(tx_repo).txs(), queue@.take(consumed_len(queue@)));
    }
    i
}

} // verus!
