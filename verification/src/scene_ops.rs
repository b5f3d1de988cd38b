//! The shape of the emitted command stream, with coordinates left out: a
//! page is wrapped in one page-edge clip with its background first and its
//! children after in source order, a frame wraps its children in its own
//! clip, and a rect paints its fill before its stroke. Clips always pair up.

use vstd::prelude::*;

use crate::palette::Color;

verus! {

/// A scene command, by what it does (its geometry is not modelled).
#[derive(Clone, Copy, PartialEq, Eq, Structural, Debug)]
pub enum SceneOp {
    PushClip,
    PopClip,
    FillRect(Color),
    FillRoundedRect(Color),
    StrokeRect(Color),
    StrokeRoundedRect(Color),
    /// Any other drawing command.
    Draw,
}

/// How a command changes the clip depth.
pub open spec fn clip_delta(op: SceneOp) -> int {
    match op {
        SceneOp::PushClip => 1,
        SceneOp::PopClip => -1,
        _ => 0,
    }
}

/// The clip depth after `ops`.
pub open spec fn clip_depth(ops: Seq<SceneOp>) -> int
    decreases ops.len(),
{
    if ops.len() == 0 {
        0
    } else {
        clip_depth(ops.drop_last()) + clip_delta(ops.last())
    }
}

/// Every clip pushed in `ops` is popped in `ops`, and no pop comes before its
/// push.
pub open spec fn balanced(ops: Seq<SceneOp>) -> bool {
    &&& clip_depth(ops) == 0
    &&& forall|k: int| 0 <= k <= ops.len() ==> clip_depth(#[trigger] ops.take(k)) >= 0
}

/// The commands of `parts`, one after another.
pub open spec fn flatten(parts: Seq<Seq<SceneOp>>) -> Seq<SceneOp>
    decreases parts.len(),
{
    if parts.len() == 0 {
        seq![]
    } else {
        flatten(parts.drop_last()) + parts.last()
    }
}

/// Clip depth adds up over concatenation.
pub proof fn lemma_depth_concat(a: Seq<SceneOp>, b: Seq<SceneOp>)
    ensures
        clip_depth(a + b) == clip_depth(a) + clip_depth(b),
    decreases b.len(),
{
    if b.len() > 0 {
        assert((a + b).drop_last() =~= a + b.drop_last());
        lemma_depth_concat(a, b.drop_last());
    } else {
        assert(a + b =~= a);
    }
}

/// Two balanced streams run one after the other are balanced.
pub proof fn lemma_balanced_concat(a: Seq<SceneOp>, b: Seq<SceneOp>)
    requires
        balanced(a),
        balanced(b),
    ensures
        balanced(a + b),
{
    lemma_depth_concat(a, b);
    assert forall|k: int| 0 <= k <= (a + b).len() implies clip_depth(#[trigger] (a + b).take(k))
        >= 0 by {
        if k <= a.len() {
            assert((a + b).take(k) =~= a.take(k));
        } else {
            assert((a + b).take(k) =~= a + b.take(k - a.len()));
            lemma_depth_concat(a, b.take(k - a.len()));
            assert(clip_depth(b.take(k - a.len())) >= 0);
        }
    }
}

/// A stream without clip commands is balanced.
pub proof fn lemma_no_clips_balanced(ops: Seq<SceneOp>)
    requires
        forall|i: int| 0 <= i < ops.len() ==> clip_delta(#[trigger] ops[i]) == 0,
    ensures
        balanced(ops),
{
    assert forall|k: int| 0 <= k <= ops.len() implies clip_depth(#[trigger] ops.take(k)) == 0 by {
        lemma_no_clips_depth(ops.take(k));
    }
    assert(ops.take(ops.len() as int) =~= ops);
}

proof fn lemma_no_clips_depth(ops: Seq<SceneOp>)
    requires
        forall|i: int| 0 <= i < ops.len() ==> clip_delta(#[trigger] ops[i]) == 0,
    ensures
        clip_depth(ops) == 0,
    decreases ops.len(),
{
    if ops.len() > 0 {
        let init = ops.drop_last();
        assert forall|i: int| 0 <= i < init.len() implies clip_delta(#[trigger] init[i]) == 0 by {
            assert(init[i] == ops[i]);
        }
        lemma_no_clips_depth(init);
        assert(clip_delta(ops[ops.len() - 1]) == 0);
    }
}

/// Wrapping a balanced stream in a push and a pop keeps it balanced.
pub proof fn lemma_wrapped_balanced(body: Seq<SceneOp>)
    requires
        balanced(body),
    ensures
        balanced(seq![SceneOp::PushClip] + body + seq![SceneOp::PopClip]),
{
    let open = seq![SceneOp::PushClip];
    let close = seq![SceneOp::PopClip];
    let s = open + body + close;
    lemma_depth_concat(open, body);
    lemma_depth_concat(open + body, close);
    assert(clip_depth(open) == 1) by {
        reveal_with_fuel(clip_depth, 2);
        assert(open.drop_last() =~= Seq::<SceneOp>::empty());
    }
    assert(clip_depth(close) == -1) by {
        reveal_with_fuel(clip_depth, 2);
        assert(close.drop_last() =~= Seq::<SceneOp>::empty());
    }
    assert forall|k: int| 0 <= k <= s.len() implies clip_depth(#[trigger] s.take(k)) >= 0 by {
        if k == 0 {
            assert(s.take(0) =~= Seq::<SceneOp>::empty());
        } else if k <= body.len() + 1 {
            assert(s.take(k) =~= open + body.take(k - 1));
            lemma_depth_concat(open, body.take(k - 1));
        } else {
            assert(s.take(k) =~= s);
        }
    }
}

/// The stream of a list of balanced streams is balanced.
pub proof fn lemma_flatten_balanced(parts: Seq<Seq<SceneOp>>)
    requires
        forall|i: int| 0 <= i < parts.len() ==> balanced(#[trigger] parts[i]),
    ensures
        balanced(flatten(parts)),
    decreases parts.len(),
{
    if parts.len() == 0 {
        assert(flatten(parts).take(0) =~= Seq::<SceneOp>::empty());
    } else {
        let init = parts.drop_last();
        assert forall|i: int| 0 <= i < init.len() implies balanced(#[trigger] init[i]) by {
            assert(init[i] == parts[i]);
        }
        lemma_flatten_balanced(init);
        assert(balanced(parts[parts.len() - 1]));
        lemma_balanced_concat(flatten(init), parts.last());
    }
}

fn append_all(out: &mut Vec<SceneOp>, parts: &Vec<Vec<SceneOp>>)
    ensures
        final(out)@ == old(out)@ + flatten(parts@.map_values(|v: Vec<SceneOp>| v@)),
{
    let ghost start = out@;
    let ghost views = parts@.map_values(|v: Vec<SceneOp>| v@);
    let mut i: usize = 0;
    proof {
        assert(views.take(0) =~= Seq::<Seq<SceneOp>>::empty());
        assert(start + flatten(views.take(0)) =~= start);
    }
    while i < parts.len()
        invariant
            i <= parts@.len(),
            views == parts@.map_values(|v: Vec<SceneOp>| v@),
            out@ == start + flatten(views.take(i as int)),
        decreases parts@.len() - i,
    {
        let part = &parts[i];
        let ghost before = out@;
        let mut j: usize = 0;
        while j < part.len()
            invariant
                j <= part@.len(),
                out@ == before + part@.take(j as int),
            decreases part@.len() - j,
        {
            out.push(part[j]);
            j = j + 1;
            proof {
                assert(out@ =~= before + part@.take(j as int));
            }
        }
        proof {
            assert(part@.take(part@.len() as int) =~= part@);
            assert(views.take(i + 1).drop_last() =~= views.take(i as int));
            assert(views.take(i + 1).last() == part@);
            assert(out@ =~= start + flatten(views.take(i + 1)));
        }
        i = i + 1;
    }
    proof {
        assert(views.take(parts@.len() as int) =~= views);
    }
}

/// The command stream of a page: the page-edge clip, the background fill
/// when the page has one that resolved, each child's commands in source
/// order (first is bottom-most), then the closing pop.
pub fn page_scene(background: Option<Color>, children: &Vec<Vec<SceneOp>>) -> (ops: Vec<SceneOp>)
    ensures
        ops@ == seq![SceneOp::PushClip] + (match background {
            Some(c) => seq![SceneOp::FillRect(c)],
            None => Seq::<SceneOp>::empty(),
        }) + flatten(children@.map_values(|v: Vec<SceneOp>| v@)) + seq![SceneOp::PopClip],
{
    let mut ops: Vec<SceneOp> = Vec::new();
    ops.push(SceneOp::PushClip);
    match background {
        Some(c) => ops.push(SceneOp::FillRect(c)),
        None => {},
    }
    let ghost head = ops@;
    append_all(&mut ops, children);
    ops.push(SceneOp::PopClip);
    proof {
        assert(head =~= seq![SceneOp::PushClip] + (match background {
            Some(c) => seq![SceneOp::FillRect(c)],
            None => Seq::<SceneOp>::empty(),
        }));
    }
    ops
}

/// The command stream of a frame: its clip, its children's commands in
/// source order, then the pop.
pub fn frame_scene(children: &Vec<Vec<SceneOp>>) -> (ops: Vec<SceneOp>)
    ensures
        ops@ == seq![SceneOp::PushClip] + flatten(children@.map_values(|v: Vec<SceneOp>| v@))
            + seq![SceneOp::PopClip],
{
    let mut ops: Vec<SceneOp> = Vec::new();
    ops.push(SceneOp::PushClip);
    append_all(&mut ops, children);
    ops.push(SceneOp::PopClip);
    ops
}

/// The paint commands of a rect: the fill first (rounded when the rect has
/// a corner radius), then the stroke on top (rounded when the stroked box
/// keeps a radius), the stroke only when its box is not degenerate.
/// `fill` and `stroke` are the colors that resolved, if any.
pub fn rect_paint(
    fill: Option<Color>,
    rounded_fill: bool,
    stroke: Option<Color>,
    stroke_box_nonempty: bool,
    rounded_stroke: bool,
) -> (ops: Vec<SceneOp>)
    ensures
        ops@ == (match fill {
            Some(c) => seq![
                if rounded_fill {
                    SceneOp::FillRoundedRect(c)
                } else {
                    SceneOp::FillRect(c)
                },
            ],
            None => Seq::<SceneOp>::empty(),
        }) + (match stroke {
            Some(c) => if stroke_box_nonempty {
                seq![
                    if rounded_stroke {
                        SceneOp::StrokeRoundedRect(c)
                    } else {
                        SceneOp::StrokeRect(c)
                    },
                ]
            } else {
                Seq::<SceneOp>::empty()
            },
            None => Seq::<SceneOp>::empty(),
        }),
{
    let mut ops: Vec<SceneOp> = Vec::new();
    match fill {
        Some(c) => ops.push(
            if rounded_fill {
                SceneOp::FillRoundedRect(c)
            } else {
                SceneOp::FillRect(c)
            },
        ),
        None => {},
    }
    let ghost first = ops@;
    match stroke {
        Some(c) => {
            if stroke_box_nonempty {
                ops.push(
                    if rounded_stroke {
                        SceneOp::StrokeRoundedRect(c)
                    } else {
                        SceneOp::StrokeRect(c)
                    },
                );
            }
        },
        None => {},
    }
    proof {
        assert(ops@ =~= first + (match stroke {
            Some(c) => if stroke_box_nonempty {
                seq![
                    if rounded_stroke {
                        SceneOp::StrokeRoundedRect(c)
                    } else {
                        SceneOp::StrokeRect(c)
                    },
                ]
            } else {
                Seq::<SceneOp>::empty()
            },
            None => Seq::<SceneOp>::empty(),
        }));
    }
    ops
}

/// Clips always pair up: a page whose children each emit a balanced stream
/// emits a balanced stream, and so does a frame.
pub proof fn law_scene_clips_balanced(background: Option<Color>, children: Seq<Seq<SceneOp>>)
    requires
        forall|i: int| 0 <= i < children.len() ==> balanced(#[trigger] children[i]),
    ensures
        balanced(seq![SceneOp::PushClip] + (match background {
            Some(c) => seq![SceneOp::FillRect(c)],
            None => Seq::<SceneOp>::empty(),
        }) + flatten(children) + seq![SceneOp::PopClip]),
        balanced(seq![SceneOp::PushClip] + flatten(children) + seq![SceneOp::PopClip]),
{
    let bg = match background {
        Some(c) => seq![SceneOp::FillRect(c)],
        None => Seq::<SceneOp>::empty(),
    };
    lemma_no_clips_balanced(bg);
    lemma_flatten_balanced(children);
    lemma_balanced_concat(bg, flatten(children));
    lemma_wrapped_balanced(bg + flatten(children));
    assert(seq![SceneOp::PushClip] + bg + flatten(children) + seq![SceneOp::PopClip] =~= seq![
        SceneOp::PushClip,
    ] + (bg + flatten(children)) + seq![SceneOp::PopClip]);
    lemma_wrapped_balanced(flatten(children));
}

/// The command fills a rectangle.
pub open spec fn is_fill(op: SceneOp) -> bool {
    op matches SceneOp::FillRect(_) || op matches SceneOp::FillRoundedRect(_)
}

/// The command strokes a rectangle.
pub open spec fn is_stroke(op: SceneOp) -> bool {
    op matches SceneOp::StrokeRect(_) || op matches SceneOp::StrokeRoundedRect(_)
}

/// A rect's paint commands open no clip, and the fill, when there is one,
/// comes first.
pub proof fn law_rect_fill_before_stroke(
    fill: Option<Color>,
    rounded_fill: bool,
    stroke: Option<Color>,
    stroke_box_nonempty: bool,
    rounded_stroke: bool,
    ops: Seq<SceneOp>,
)
    requires
        ops == (match fill {
            Some(c) => seq![
                if rounded_fill {
                    SceneOp::FillRoundedRect(c)
                } else {
                    SceneOp::FillRect(c)
                },
            ],
            None => Seq::<SceneOp>::empty(),
        }) + (match stroke {
            Some(c) => if stroke_box_nonempty {
                seq![
                    if rounded_stroke {
                        SceneOp::StrokeRoundedRect(c)
                    } else {
                        SceneOp::StrokeRect(c)
                    },
                ]
            } else {
                Seq::<SceneOp>::empty()
            },
            None => Seq::<SceneOp>::empty(),
        }),
    ensures
        balanced(ops),
        fill is Some ==> is_fill(ops[0]),
        forall|i: int, j: int|
            #![trigger ops[i], ops[j]]
            0 <= i < j < ops.len() ==> !(is_stroke(ops[i]) && is_fill(ops[j])),
{
    assert forall|i: int| 0 <= i < ops.len() implies clip_delta(#[trigger] ops[i]) == 0 by {}
    lemma_no_clips_balanced(ops);
}

} // verus!
