//! Printable artefacts: triangle meshes in millimetres, extruded from planar profiles and
//! framed as ASCII STL.

use crate::ieee::Binary64;
use vstd::prelude::*;

verus! {

/// First-class printable artefact produced by the prototype compiler.
#[derive(Debug, Clone, PartialEq)]
pub struct PrototypeArtifact {
    pub name: String,
    pub format: PrototypeArtifactFormat,
    pub mesh: PrototypeTriangleMesh,
}

#[derive(Debug, Clone, Copy, PartialEq, Eq, Structural)]
pub enum PrototypeArtifactFormat {
    Stl,
}

#[derive(Debug, Clone, PartialEq)]
pub struct PrototypeTriangleMesh {
    pub units: PrototypeLengthUnit,
    pub triangles: Vec<PrototypeTriangle>,
}

#[derive(Debug, Clone, Copy, PartialEq, Eq, Structural)]
pub enum PrototypeLengthUnit {
    Millimetres,
}

#[derive(Debug, Clone, Copy, PartialEq)]
pub struct PrototypeTriangle {
    pub vertices: [PrototypeVertex; 3],
}

#[derive(Debug, Clone, Copy, PartialEq)]
pub struct PrototypeVertex {
    pub x: Binary64,
    pub y: Binary64,
    pub z: Binary64,
}


impl PrototypeArtifact {
    /// Creates an STL-oriented printable artefact from a triangle mesh.
    pub fn stl(name: &str, mesh: PrototypeTriangleMesh) -> (r: Self)
        ensures
            r.name@ == name@,
            r.format == PrototypeArtifactFormat::Stl,
            r.mesh == mesh,
    {
        PrototypeArtifact { name: name.to_owned(), format: PrototypeArtifactFormat::Stl, mesh }
    }
}

impl PrototypeTriangleMesh {
    /// Creates a triangle mesh expressed in millimetres.
    pub fn new(triangles: Vec<PrototypeTriangle>) -> (r: Self)
        ensures
            r.units == PrototypeLengthUnit::Millimetres,
            r.triangles == triangles,
    {
        PrototypeTriangleMesh { units: PrototypeLengthUnit::Millimetres, triangles }
    }
}

// ---------------------------------------------------------------------------------------
// Extrusion of a closed planar profile.
// ---------------------------------------------------------------------------------------

/// The encoding of +0.0.
pub open spec fn zero() -> Binary64 {
    Binary64 { bits: 0 }
}

pub open spec fn point(x: Binary64, y: Binary64, z: Binary64) -> PrototypeVertex {
    PrototypeVertex { x, y, z }
}

pub open spec fn triangle(a: PrototypeVertex, b: PrototypeVertex, c: PrototypeVertex) -> PrototypeTriangle {
    PrototypeTriangle { vertices: [a, b, c] }
}

/// The four faces contributed by the profile's edge from point `i` to the next point (the
/// last point closes the profile back to the first): a top fan triangle, a bottom fan
/// triangle, and the two triangles of the side wall.
pub open spec fn extrusion_faces(profile: Seq<(Binary64, Binary64)>, height: Binary64, i: int) -> Seq<
    PrototypeTriangle,
> {
    let next = if i + 1 == profile.len() {
        0
    } else {
        i + 1
    };
    let (x0, y0) = profile[i];
    let (x1, y1) = profile[next];
    let bottom0 = point(x0, y0, zero());
    let bottom1 = point(x1, y1, zero());
    let top0 = point(x0, y0, height);
    let top1 = point(x1, y1, height);
    seq![
        triangle(point(zero(), zero(), height), top0, top1),
        triangle(point(zero(), zero(), zero()), bottom1, bottom0),
        triangle(bottom0, bottom1, top1),
        triangle(bottom0, top1, top0),
    ]
}

/// The faces of the first `k` profile edges, in profile order.
pub open spec fn extrusion(profile: Seq<(Binary64, Binary64)>, height: Binary64, k: int) -> Seq<
    PrototypeTriangle,
>
    decreases k,
{
    if k <= 0 {
        Seq::empty()
    } else {
        extrusion(profile, height, k - 1) + extrusion_faces(profile, height, k - 1)
    }
}

/// The extrusion holds four faces per profile point.
pub proof fn lemma_extrusion_len(profile: Seq<(Binary64, Binary64)>, height: Binary64, k: int)
    requires
        0 <= k,
    ensures
        extrusion(profile, height, k).len() == 4 * k,
    decreases k,
{
    if k > 0 {
        lemma_extrusion_len(profile, height, k - 1);
    }
}

/// Extrudes a closed planar profile from `z = 0` up to `height_mm`, fanning the top and the
/// bottom caps from the axis. The coordinates are used as given: the caller has rounded them
/// to the micrometre.
pub fn extrude_profile(profile: &Vec<(Binary64, Binary64)>, height_mm: Binary64) -> (r: PrototypeTriangleMesh)
    requires
        4 * profile@.len() <= usize::MAX,
    ensures
        r.units == PrototypeLengthUnit::Millimetres,
        r.triangles@ == extrusion(profile@, height_mm, profile@.len() as int),
        r.triangles@.len() == 4 * profile@.len(),
{
    let n = profile.len();
    let mut triangles: Vec<PrototypeTriangle> = Vec::with_capacity(n * 4);
    let zero = Binary64::from_bits(0);
    let bottom_center = PrototypeVertex { x: zero, y: zero, z: zero };
    let top_center = PrototypeVertex { x: zero, y: zero, z: height_mm };
    let mut index: usize = 0;
    while index < n
        invariant
            n == profile@.len(),
            index <= n,
            triangles@ == extrusion(profile@, height_mm, index as int),
            zero == crate::compiler::artifact::zero(),
            bottom_center == point(zero, zero, zero),
            top_center == point(zero, zero, height_mm),
        decreases n - index,
    {
        let next = if index + 1 == n {
            0
        } else {
            index + 1
        };
        let (x0, y0) = profile[index];
        let (x1, y1) = profile[next];
        let bottom0 = PrototypeVertex { x: x0, y: y0, z: zero };
        let bottom1 = PrototypeVertex { x: x1, y: y1, z: zero };
        let top0 = PrototypeVertex { x: x0, y: y0, z: height_mm };
        let top1 = PrototypeVertex { x: x1, y: y1, z: height_mm };
        triangles.push(PrototypeTriangle { vertices: [top_center, top0, top1] });
        triangles.push(PrototypeTriangle { vertices: [bottom_center, bottom1, bottom0] });
        triangles.push(PrototypeTriangle { vertices: [bottom0, bottom1, top1] });
        triangles.push(PrototypeTriangle { vertices: [bottom0, top1, top0] });
        proof {
            assert(triangles@ =~= extrusion(profile@, height_mm, index as int) + extrusion_faces(
                profile@,
                height_mm,
                index as int,
            ));
        }
        index = index + 1;
    }
    proof {
        lemma_extrusion_len(profile@, height_mm, n as int);
    }
    PrototypeTriangleMesh::new(triangles)
}


/// The triangle walks from `a` to `b` along one of its edges, in its winding order.
pub open spec fn walks(t: PrototypeTriangle, a: PrototypeVertex, b: PrototypeVertex) -> bool {
    ||| (t.vertices[0] == a && t.vertices[1] == b)
    ||| (t.vertices[1] == a && t.vertices[2] == b)
    ||| (t.vertices[2] == a && t.vertices[0] == b)
}

/// The faces of the extrusion are those of its profile edges, four by four.
proof fn lemma_extrusion_index(profile: Seq<(Binary64, Binary64)>, height: Binary64, k: int, i: int, j: int)
    requires
        0 <= i < k,
        0 <= j < 4,
    ensures
        extrusion(profile, height, k).len() == 4 * k,
        extrusion(profile, height, k)[4 * i + j] == extrusion_faces(profile, height, i)[j],
    decreases k,
{
    lemma_extrusion_len(profile, height, k);
    lemma_extrusion_len(profile, height, k - 1);
    if i < k - 1 {
        lemma_extrusion_index(profile, height, k - 1, i, j);
    }
}

/// Each side wall of an extrusion covers the whole quadrilateral over its profile edge: for the
/// edge from point `i` to the next one (the last point closing back to the first), one triangle
/// runs from the bottom of `i` to the bottom and then the top of the next point, the other from
/// the bottom of `i` over the top of the next point back to the top of `i`. Between them the
/// caps: the top fan from the axis over the top edge, the bottom fan over the bottom edge the
/// other way round.
pub proof fn law_extrusion_walls_cover_profile_edges(profile: Seq<(Binary64, Binary64)>, height: Binary64)
    ensures
        ({
            let n = profile.len() as int;
            let mesh = extrusion(profile, height, n);
            &&& mesh.len() == 4 * n
            &&& forall|i: int|
                0 <= i < n ==> {
                    let next = if i + 1 == n { 0 } else { i + 1 };
                    let b0 = point((#[trigger] profile[i]).0, profile[i].1, zero());
                    let b1 = point(profile[next].0, profile[next].1, zero());
                    let t0 = point(profile[i].0, profile[i].1, height);
                    let t1 = point(profile[next].0, profile[next].1, height);
                    &&& mesh[4 * i] == triangle(point(zero(), zero(), height), t0, t1)
                    &&& mesh[4 * i + 1] == triangle(point(zero(), zero(), zero()), b1, b0)
                    &&& mesh[4 * i + 2] == triangle(b0, b1, t1)
                    &&& mesh[4 * i + 3] == triangle(b0, t1, t0)
                }
        }),
{
    let n = profile.len() as int;
    lemma_extrusion_len(profile, height, n);
    assert forall|i: int| 0 <= i < n implies {
        let next = if i + 1 == n { 0 } else { i + 1 };
        let b0 = point((#[trigger] profile[i]).0, profile[i].1, zero());
        let b1 = point(profile[next].0, profile[next].1, zero());
        let t0 = point(profile[i].0, profile[i].1, height);
        let t1 = point(profile[next].0, profile[next].1, height);
        &&& extrusion(profile, height, n)[4 * i] == triangle(point(zero(), zero(), height), t0, t1)
        &&& extrusion(profile, height, n)[4 * i + 1] == triangle(point(zero(), zero(), zero()), b1, b0)
        &&& extrusion(profile, height, n)[4 * i + 2] == triangle(b0, b1, t1)
        &&& extrusion(profile, height, n)[4 * i + 3] == triangle(b0, t1, t0)
    } by {
        lemma_extrusion_index(profile, height, n, i, 0);
        lemma_extrusion_index(profile, height, n, i, 1);
        lemma_extrusion_index(profile, height, n, i, 2);
        lemma_extrusion_index(profile, height, n, i, 3);
    }
}


/// The four faces over the profile edge from point `i`.
proof fn lemma_faces_at(profile: Seq<(Binary64, Binary64)>, height: Binary64, i: int)
    requires
        0 <= i < profile.len(),
    ensures
        ({
            let n = profile.len() as int;
            let mesh = extrusion(profile, height, n);
            let next = if i + 1 == n { 0 } else { i + 1 };
            let b0 = point(profile[i].0, profile[i].1, zero());
            let b1 = point(profile[next].0, profile[next].1, zero());
            let t0 = point(profile[i].0, profile[i].1, height);
            let t1 = point(profile[next].0, profile[next].1, height);
            &&& mesh.len() == 4 * n
            &&& mesh[4 * i] == triangle(point(zero(), zero(), height), t0, t1)
            &&& mesh[4 * i + 1] == triangle(point(zero(), zero(), zero()), b1, b0)
            &&& mesh[4 * i + 2] == triangle(b0, b1, t1)
            &&& mesh[4 * i + 3] == triangle(b0, t1, t0)
        }),
{
    let n = profile.len() as int;
    lemma_extrusion_index(profile, height, n, i, 0);
    lemma_extrusion_index(profile, height, n, i, 1);
    lemma_extrusion_index(profile, height, n, i, 2);
    lemma_extrusion_index(profile, height, n, i, 3);
}

/// What a triangle walks, corner by corner.
proof fn lemma_walks(a: PrototypeVertex, b: PrototypeVertex, c: PrototypeVertex, x: PrototypeVertex, y: PrototypeVertex)
    ensures
        walks(triangle(a, b, c), x, y) == ((a == x && b == y) || (b == x && c == y) || (c == x && a == y)),
{
    assert(triangle(a, b, c).vertices[0] == a);
    assert(triangle(a, b, c).vertices[1] == b);
    assert(triangle(a, b, c).vertices[2] == c);
}

/// Whatever edge the triangle at `k` walks, some triangle of the mesh walks it back.
#[verifier::spinoff_prover]
proof fn lemma_edge_walked_back(profile: Seq<(Binary64, Binary64)>, height: Binary64, k: int, a: PrototypeVertex, b: PrototypeVertex)
    requires
        0 <= k < 4 * profile.len(),
        walks(extrusion(profile, height, profile.len() as int)[k], a, b),
    ensures
        exists|k2: int|
            0 <= k2 < extrusion(profile, height, profile.len() as int).len() && #[trigger] walks(
                extrusion(profile, height, profile.len() as int)[k2],
                b,
                a,
            ),
{
    let n = profile.len() as int;
    let mesh = extrusion(profile, height, n);
    let i = k / 4;
    let prev = if i == 0 { n - 1 } else { i - 1 };
    let next = if i + 1 == n { 0 } else { i + 1 };
    lemma_faces_at(profile, height, i);
    lemma_faces_at(profile, height, prev);
    lemma_faces_at(profile, height, next);
    let ct = point(zero(), zero(), height);
    let cb = point(zero(), zero(), zero());
    let bp = point(profile[prev].0, profile[prev].1, zero());
    let b0 = point(profile[i].0, profile[i].1, zero());
    let b1 = point(profile[next].0, profile[next].1, zero());
    let tp = point(profile[prev].0, profile[prev].1, height);
    let t0 = point(profile[i].0, profile[i].1, height);
    let t1 = point(profile[next].0, profile[next].1, height);
    let nn = if next + 1 == n { 0 } else { next + 1 };
    let b2 = point(profile[nn].0, profile[nn].1, zero());
    let t2 = point(profile[nn].0, profile[nn].1, height);
    assert(mesh[4 * prev] == triangle(ct, tp, t0));
    assert(mesh[4 * prev + 1] == triangle(cb, b0, bp));
    assert(mesh[4 * prev + 2] == triangle(bp, b0, t0));
    assert(mesh[4 * next] == triangle(ct, t1, t2));
    assert(mesh[4 * next + 1] == triangle(cb, b2, b1));
    assert(mesh[4 * next + 3] == triangle(b1, t2, t1));
    if k == 4 * i {
        lemma_walks(ct, t0, t1, a, b);
        if a == ct && b == t0 {
            lemma_walks(ct, tp, t0, b, a);
            assert(walks(mesh[4 * prev], b, a));
        } else if a == t0 && b == t1 {
            lemma_walks(b0, t1, t0, b, a);
            assert(walks(mesh[4 * i + 3], b, a));
        } else {
            lemma_walks(ct, t1, t2, b, a);
            assert(walks(mesh[4 * next], b, a));
        }
    } else if k == 4 * i + 1 {
        lemma_walks(cb, b1, b0, a, b);
        if a == cb && b == b1 {
            lemma_walks(cb, b2, b1, b, a);
            assert(walks(mesh[4 * next + 1], b, a));
        } else if a == b1 && b == b0 {
            lemma_walks(b0, b1, t1, b, a);
            assert(walks(mesh[4 * i + 2], b, a));
        } else {
            lemma_walks(cb, b0, bp, b, a);
            assert(walks(mesh[4 * prev + 1], b, a));
        }
    } else if k == 4 * i + 2 {
        lemma_walks(b0, b1, t1, a, b);
        if a == b0 && b == b1 {
            lemma_walks(cb, b1, b0, b, a);
            assert(walks(mesh[4 * i + 1], b, a));
        } else if a == b1 && b == t1 {
            lemma_walks(b1, t2, t1, b, a);
            assert(walks(mesh[4 * next + 3], b, a));
        } else {
            lemma_walks(b0, t1, t0, b, a);
            assert(walks(mesh[4 * i + 3], b, a));
        }
    } else {
        assert(k == 4 * i + 3);
        lemma_walks(b0, t1, t0, a, b);
        if a == b0 && b == t1 {
            lemma_walks(b0, b1, t1, b, a);
            assert(walks(mesh[4 * i + 2], b, a));
        } else if a == t1 && b == t0 {
            lemma_walks(ct, t0, t1, b, a);
            assert(walks(mesh[4 * i], b, a));
        } else {
            lemma_walks(bp, b0, t0, b, a);
            assert(walks(mesh[4 * prev + 2], b, a));
        }
    }
}

/// An extrusion is a closed, consistently wound surface: whatever edge one of its triangles
/// walks, from one corner to the next, another triangle of the mesh walks back the other way.
/// No side wall, cap or seam leaves a hole.
pub proof fn law_extrusion_is_closed(profile: Seq<(Binary64, Binary64)>, height: Binary64)
    ensures
        ({
            let mesh = extrusion(profile, height, profile.len() as int);
            forall|k: int, a: PrototypeVertex, b: PrototypeVertex|
                0 <= k < mesh.len() && #[trigger] walks(mesh[k], a, b) ==> exists|k2: int|
                    0 <= k2 < mesh.len() && #[trigger] walks(mesh[k2], b, a)
        }),
{
    let mesh = extrusion(profile, height, profile.len() as int);
    lemma_extrusion_len(profile, height, profile.len() as int);
    assert forall|k: int, a: PrototypeVertex, b: PrototypeVertex|
        0 <= k < mesh.len() && #[trigger] walks(mesh[k], a, b) implies exists|k2: int|
        0 <= k2 < mesh.len() && #[trigger] walks(mesh[k2], b, a) by {
        lemma_edge_walked_back(profile, height, k, a, b);
    }
}

// ---------------------------------------------------------------------------------------
// ASCII STL framing.
// ---------------------------------------------------------------------------------------

/// Three printed coordinates, of a corner or of a normal.
#[derive(Debug, Clone)]
pub struct StlTriple {
    pub x: String,
    pub y: String,
    pub z: String,
}

/// The printed normal and corners of one facet, in winding order.
#[derive(Debug, Clone)]
pub struct StlFacet {
    pub normal: StlTriple,
    pub first: StlTriple,
    pub second: StlTriple,
    pub third: StlTriple,
}

pub open spec fn triple_text(t: StlTriple) -> Seq<char> {
    t.x@ + " "@ + t.y@ + " "@ + t.z@
}

/// One facet: its normal line, then its loop of three vertex lines.
pub open spec fn facet_text(f: StlFacet) -> Seq<char> {
    "  facet normal "@ + triple_text(f.normal) + "\n"@ + "    outer loop\n"@ + "      vertex "@
        + triple_text(f.first) + "\n"@ + "      vertex "@ + triple_text(f.second) + "\n"@
        + "      vertex "@ + triple_text(f.third) + "\n"@ + "    endloop\n"@ + "  endfacet\n"@
}

/// The facets, one after the other.
pub open spec fn facets_text(fs: Seq<StlFacet>) -> Seq<char>
    decreases fs.len(),
{
    if fs.len() == 0 {
        Seq::empty()
    } else {
        facets_text(fs.drop_last()) + facet_text(fs.last())
    }
}

/// A named solid made of the given facets.
pub open spec fn stl_text(name: Seq<char>, fs: Seq<StlFacet>) -> Seq<char> {
    "solid "@ + name + "\n"@ + facets_text(fs) + "endsolid "@ + name + "\n"@
}

fn push_text(out: &mut String, s: &str)
    ensures
        final(out)@ == old(out)@ + s@,
{
    out.append(s);
}

fn push_triple(out: &mut String, t: &StlTriple)
    ensures
        final(out)@ == old(out)@ + triple_text(*t),
{
    push_text(out, t.x.as_str());
    push_text(out, " ");
    push_text(out, t.y.as_str());
    push_text(out, " ");
    push_text(out, t.z.as_str());
    assert(out@ =~= old(out)@ + triple_text(*t));
}

fn push_facet(out: &mut String, f: &StlFacet)
    ensures
        final(out)@ == old(out)@ + facet_text(*f),
{
    push_text(out, "  facet normal ");
    push_triple(out, &f.normal);
    push_text(out, "\n");
    push_text(out, "    outer loop\n");
    push_text(out, "      vertex ");
    push_triple(out, &f.first);
    push_text(out, "\n");
    push_text(out, "      vertex ");
    push_triple(out, &f.second);
    push_text(out, "\n");
    push_text(out, "      vertex ");
    push_triple(out, &f.third);
    push_text(out, "\n");
    push_text(out, "    endloop\n");
    push_text(out, "  endfacet\n");
    assert(out@ =~= old(out)@ + facet_text(*f));
}

/// Frames printed facets as the ASCII STL text of a named solid.
pub fn ascii_stl(solid_name: &str, facets: &Vec<StlFacet>) -> (r: String)
    ensures
        r@ == stl_text(solid_name@, facets@),
{
    let mut out = String::new();
    push_text(&mut out, "solid ");
    push_text(&mut out, solid_name);
    push_text(&mut out, "\n");
    let ghost head = out@;
    let n = facets.len();
    let mut i: usize = 0;
    while i < n
        invariant
            n == facets@.len(),
            i <= n,
            out@ == head + facets_text(facets@.take(i as int)),
        decreases n - i,
    {
        push_facet(&mut out, &facets[i]);
        proof {
            assert(facets@.take(i + 1).drop_last() =~= facets@.take(i as int));
            assert(facets@.take(i + 1).last() == facets@[i as int]);
            assert(out@ =~= head + facets_text(facets@.take(i + 1)));
        }
        i = i + 1;
    }
    assert(facets@.take(n as int) =~= facets@);
    push_text(&mut out, "endsolid ");
    push_text(&mut out, solid_name);
    push_text(&mut out, "\n");
    assert(out@ =~= stl_text(solid_name@, facets@));
    out
}


/// An ASCII solid opens with `solid <name>` and closes with `endsolid <name>`, and between
/// them holds the facets' texts in order.
pub proof fn law_stl_framing(name: Seq<char>, fs: Seq<StlFacet>)
    ensures
        ({
            let text = stl_text(name, fs);
            let head = "solid "@ + name + "\n"@;
            let foot = "endsolid "@ + name + "\n"@;
            &&& text.len() == head.len() + facets_text(fs).len() + foot.len()
            &&& text.take(head.len() as int) == head
            &&& text.subrange(head.len() as int, (head.len() + facets_text(fs).len()) as int) == facets_text(fs)
            &&& text.skip(text.len() - foot.len()) == foot
        }),
{
    let text = stl_text(name, fs);
    let head = "solid "@ + name + "\n"@;
    let foot = "endsolid "@ + name + "\n"@;
    assert(text =~= head + facets_text(fs) + foot);
    assert(text.take(head.len() as int) =~= head);
    assert(text.subrange(head.len() as int, (head.len() + facets_text(fs).len()) as int) =~= facets_text(fs));
    assert(text.skip(text.len() - foot.len()) =~= foot);
}

/// Appending a facet appends its text before the closing line.
pub proof fn law_facets_append(fs: Seq<StlFacet>, f: StlFacet)
    ensures
        facets_text(fs.push(f)) == facets_text(fs) + facet_text(f),
{
    assert(fs.push(f).drop_last() =~= fs);
}

} // verus!
