use vstd::prelude::*;

verus! {

/// The least of three numbers.
pub open spec fn least(x: nat, y: nat, z: nat) -> nat {
    if x <= y && x <= z {
        x
    } else if y <= z {
        y
    } else {
        z
    }
}

/// The edit distance of two texts: the least number of characters to insert,
/// delete or replace in order to turn `a` into `b`.
pub open spec fn edit_distance(a: Seq<char>, b: Seq<char>) -> nat
    decreases a.len() + b.len(),
{
    if a.len() == 0 {
        b.len()
    } else if b.len() == 0 {
        a.len()
    } else {
        let replace: nat = if a.last() == b.last() {
            0
        } else {
            1
        };
        least(
            edit_distance(a.drop_last(), b) + 1,
            edit_distance(a, b.drop_last()) + 1,
            edit_distance(a.drop_last(), b.drop_last()) + replace,
        )
    }
}

/// The length of the longer of two texts.
pub open spec fn longer_len(a: Seq<char>, b: Seq<char>) -> nat {
    if a.len() >= b.len() {
        a.len()
    } else {
        b.len()
    }
}

/// Two texts are similar where their edit distance is at most a fifth of the
/// longer one's length: they agree in four fifths of it or more.
pub open spec fn similar(a: Seq<char>, b: Seq<char>) -> bool {
    5 * edit_distance(a, b) <= longer_len(a, b)
}

/// The edit distance is at most the length of the longer text.
pub proof fn lemma_distance_bound(a: Seq<char>, b: Seq<char>)
    ensures
        edit_distance(a, b) <= longer_len(a, b),
    decreases a.len() + b.len(),
{
    if a.len() > 0 && b.len() > 0 {
        lemma_distance_bound(a.drop_last(), b.drop_last());
    }
}

/// The edit distance does not depend on the order of the two texts.
pub proof fn lemma_distance_symmetric(a: Seq<char>, b: Seq<char>)
    ensures
        edit_distance(a, b) == edit_distance(b, a),
    decreases a.len() + b.len(),
{
    if a.len() > 0 && b.len() > 0 {
        lemma_distance_symmetric(a.drop_last(), b);
        lemma_distance_symmetric(a, b.drop_last());
        lemma_distance_symmetric(a.drop_last(), b.drop_last());
    }
}

/// A text is at distance zero from itself.
pub proof fn lemma_distance_to_self(a: Seq<char>)
    ensures
        edit_distance(a, a) == 0,
    decreases a.len(),
{
    if a.len() > 0 {
        lemma_distance_to_self(a.drop_last());
    }
}

/// Similarity is symmetric, and every text is similar to itself.
pub proof fn lemma_similar_symmetric(a: Seq<char>, b: Seq<char>)
    ensures
        similar(a, b) == similar(b, a),
        similar(a, a),
{
    lemma_distance_symmetric(a, b);
    lemma_distance_to_self(a);
}

/// The characters of `text`, in order.
pub fn chars_of(text: &str) -> (chars: Vec<char>)
    ensures
        chars@ == text@,
{
    let mut chars: Vec<char> = Vec::new();
    for c in it: text.chars()
        invariant
            it.seq() == text@,
            chars@ == text@.take(it.index()),
    {
        chars.push(c);
        assert(text@.take(it.index() + 1) == text@.take(it.index()).push(text@[it.index()]));
    }
    assert(text@.take(text@.len() as int) == text@);
    chars
}

/// One step of the table of distances: the distance of `a.take(i + 1)` and
/// `b.take(j + 1)` from those of the three shorter pairs.
proof fn lemma_distance_step(a: Seq<char>, b: Seq<char>, i: int, j: int)
    requires
        0 <= i < a.len(),
        0 <= j < b.len(),
    ensures
        edit_distance(a.take(i + 1), b.take(j + 1)) == least(
            edit_distance(a.take(i), b.take(j + 1)) + 1,
            edit_distance(a.take(i + 1), b.take(j)) + 1,
            edit_distance(a.take(i), b.take(j)) + if a[i] == b[j] {
                0nat
            } else {
                1nat
            },
        ),
{
    assert(a.take(i + 1).drop_last() == a.take(i));
    assert(b.take(j + 1).drop_last() == b.take(j));
}

/// The edit distance of `a` and `b`, by the table of the distances of their
/// prefixes, of which one row is kept.
pub fn distance(a: &Vec<char>, b: &Vec<char>) -> (d: usize)
    ensures
        d == edit_distance(a@, b@),
{
    let n: usize = a.len();
    let m: usize = b.len();
    let mut row: Vec<usize> = Vec::new();
    let mut j: usize = 0;
    while j < m
        invariant
            j <= m,
            m == b.len(),
            row.len() == j,
            forall|k: int| 0 <= k < j ==> row[k] == k + 1,
        decreases m - j,
    {
        row.push(j + 1);
        j = j + 1;
    }
    assert forall|k: int| 0 <= k < m implies row[k] == edit_distance(a@.take(0), b@.take(k + 1)) by {
        assert(a@.take(0).len() == 0);
    }
    let mut i: usize = 0;
    while i < n
        invariant
            i <= n,
            n == a.len(),
            m == b.len(),
            row.len() == m,
            forall|k: int| 0 <= k < m ==> row[k] == edit_distance(a@.take(i as int), b@.take(k + 1)),
        decreases n - i,
    {
        let mut corner: usize = i;
        let mut left: usize = i + 1;
        let mut j: usize = 0;
        assert(b@.take(0).len() == 0);
        while j < m
            invariant
                j <= m,
                i < n,
                n == a.len(),
                m == b.len(),
                row.len() == m,
                corner == edit_distance(a@.take(i as int), b@.take(j as int)),
                left == edit_distance(a@.take(i + 1), b@.take(j as int)),
                forall|k: int| 0 <= k < j ==> row[k] == edit_distance(a@.take(i + 1), b@.take(k + 1)),
                forall|k: int| j <= k < m ==> row[k] == edit_distance(a@.take(i as int), b@.take(k + 1)),
            decreases m - j,
        {
            let up: usize = row[j];
            proof {
                lemma_distance_step(a@, b@, i as int, j as int);
                lemma_distance_bound(a@.take(i as int), b@.take(j as int));
            }
            let mut best: usize = if a[i] == b[j] {
                corner
            } else {
                corner + 1
            };
            if up < best {
                best = up + 1;
            }
            if left < best {
                best = left + 1;
            }
            corner = up;
            left = best;
            row.set(j, best);
            j = j + 1;
        }
        i = i + 1;
    }
    if m == 0 {
        assert(b@.len() == 0);
        n
    } else {
        assert(a@.take(n as int) == a@);
        assert(b@.take(m as int) == b@);
        row[m - 1]
    }
}

/// Whether `a` and `b` are similar.
pub fn are_similar(a: &Vec<char>, b: &Vec<char>) -> (b_similar: bool)
    ensures
        b_similar == similar(a@, b@),
{
    let longer: usize = if a.len() >= b.len() {
        a.len()
    } else {
        b.len()
    };
    let d: usize = distance(a, b);
    d <= longer / 5
}

/// A message that an author has sent, as contracts speak of it: its text
/// and the number of times that the author sent it or one similar to it.
pub struct Repeated {
    pub text: Seq<char>,
    pub count: u32,
}

/// One shape of message that an author has sent, with the number of times
/// that it came.
pub struct MessageData {
    message: Vec<char>,
    count: u32,
}

impl View for MessageData {
    type V = Repeated;

    closed spec fn view(&self) -> Repeated {
        Repeated { text: self.message@, count: self.count }
    }
}

impl MessageData {
    /// A message that came once.
    pub fn new(message: String) -> (data: Self)
        ensures
            data@ == (Repeated { text: message@, count: 1 }),
    {
        MessageData { message: chars_of(message.as_str()), count: 1 }
    }

    /// A message, given by its characters, that came once.
    pub fn from_chars(message: Vec<char>) -> (data: Self)
        ensures
            data@ == (Repeated { text: message@, count: 1 }),
    {
        MessageData { message, count: 1 }
    }

    /// Whether `message` is similar to this one.
    pub fn is_message_similar(&self, message: &str) -> (b: bool)
        ensures
            b == similar(self@.text, message@),
    {
        let chars = chars_of(message);
        are_similar(&self.message, &chars)
    }

    /// Whether the message with these characters is similar to this one.
    pub fn is_similar_to(&self, message: &Vec<char>) -> (b: bool)
        ensures
            b == similar(self@.text, message@),
    {
        are_similar(&self.message, message)
    }

    /// Counts `message` as one more coming of this one. The newer text
    /// stands for the shape from now on.
    pub fn reconstruct_message(&mut self, message: &str)
        requires
            old(self)@.count < u32::MAX,
        ensures
            final(self)@ == (Repeated { text: message@, count: (old(self)@.count + 1) as u32 }),
    {
        self.message = chars_of(message);
        self.count = self.count + 1;
    }

    /// As [`MessageData::reconstruct_message`], for a message given by its
    /// characters.
    pub fn absorb(&mut self, message: Vec<char>)
        requires
            old(self)@.count < u32::MAX,
        ensures
            final(self)@ == (Repeated { text: message@, count: (old(self)@.count + 1) as u32 }),
    {
        self.message = message;
        self.count = self.count + 1;
    }

    /// The number of times that this message, or one similar to it, came.
    pub fn count(&self) -> (n: u32)
        ensures
            n == self@.count,
    {
        self.count
    }
}

} // verus!
