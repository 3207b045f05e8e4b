//! Which widgets a program's calls stand for.

use vstd::prelude::*;

use crate::ast::{Declaracion, Expresion};
use crate::decimal::{decimal_de_entero, Decimal};
use crate::layout::{
    clase, descripciones, diseno_de, diseno_de_declaracion, diseno_de_llamada, diseno_de_programa,
    disenos_de, primer_diseno, Diseno, Layout,
};
use crate::leyes_gui::da_layout;
use crate::texto::texto_de_entero;

verus! {

/// Each kind of widget is made by its names and by no other.
pub proof fn ley_nombres(n: Seq<char>)
    ensures
        (clase(n) is Columna) == (n == "columna"@ || n == "gui_columna"@ || n == "Column"@),
        (clase(n) is Fila) == (n == "fila"@ || n == "gui_fila"@ || n == "Row"@),
        (clase(n) is Pila) == (n == "pila"@ || n == "gui_pila"@ || n == "zstack"@ || n
            == "ZStack"@),
        (clase(n) is Etiqueta) == (n == "escribir"@ || n == "etiqueta"@ || n == "label"@ || n
            == "text"@ || n == "Label"@),
        (clase(n) is Titulo) == (n == "etiqueta_titulo"@ || n == "titulo"@ || n == "title"@ || n
            == "Title"@),
        (clase(n) is EtiquetaDinamica) == (n == "etiqueta_dinamica"@ || n == "varlabel"@ || n
            == "VariableLabel"@),
        (clase(n) is Boton) == (n == "boton"@ || n == "button"@ || n == "btn"@ || n == "Button"@
            || n == "boton_relleno"@ || n == "filled_button"@ || n == "FilledButton"@),
        (clase(n) is Entrada) == (n == "entrada_texto"@ || n == "text_input"@ || n == "input"@ || n
            == "TextInput"@),
        (clase(n) is Espacio) == (n == "espacio"@ || n == "spacer"@ || n == "Spacer"@),
{
    reveal_strlit("columna");
    reveal_strlit("gui_columna");
    reveal_strlit("Column");
    reveal_strlit("fila");
    reveal_strlit("gui_fila");
    reveal_strlit("Row");
    reveal_strlit("pila");
    reveal_strlit("gui_pila");
    reveal_strlit("zstack");
    reveal_strlit("ZStack");
    reveal_strlit("escribir");
    reveal_strlit("etiqueta");
    reveal_strlit("label");
    reveal_strlit("text");
    reveal_strlit("Label");
    reveal_strlit("etiqueta_titulo");
    reveal_strlit("titulo");
    reveal_strlit("title");
    reveal_strlit("Title");
    reveal_strlit("etiqueta_dinamica");
    reveal_strlit("varlabel");
    reveal_strlit("VariableLabel");
    reveal_strlit("boton");
    reveal_strlit("button");
    reveal_strlit("btn");
    reveal_strlit("Button");
    reveal_strlit("boton_relleno");
    reveal_strlit("filled_button");
    reveal_strlit("FilledButton");
    reveal_strlit("entrada_texto");
    reveal_strlit("text_input");
    reveal_strlit("input");
    reveal_strlit("TextInput");
    reveal_strlit("espacio");
    reveal_strlit("spacer");
    reveal_strlit("Spacer");
    let letras = (n.len(), n[0], n[1], n[2], n[4], n[n.len() - 1]);
}

/// A name alone and a text alone stand for what a label of them stands for.
/// Besides those only calls stand for a widget.
pub proof fn ley_expresion_suelta(e: Expresion, etiqueta: Seq<char>, depuracion: Seq<char>)
    requires
        clase(etiqueta) is Etiqueta,
    ensures
        e is Identificador || e is LiteralTexto ==> diseno_de(e) == Some(
            diseno_de_llamada(etiqueta, seq![e], depuracion),
        ),
        e matches Expresion::Identificador { nombre } ==> diseno_de(e) == Some(
            Diseno::VariableLabel { variable: nombre@ },
        ),
        e matches Expresion::LiteralTexto(t) ==> diseno_de(e) == Some(Diseno::Label { texto: t@ }),
        e matches Expresion::LlamadaFuncion { nombre, argumentos, depuracion: dep } ==> diseno_de(e)
            == Some(diseno_de_llamada(nombre@, argumentos@, dep@)),
        !(e is Identificador) && !(e is LiteralTexto) && !(e is LlamadaFuncion) ==> diseno_de(
            e,
        ) is None,
{
    assert(seq![e][0] == e);
}

/// A container holds the widgets of its arguments, those that stand for one, with
/// no space between them.
pub proof fn ley_contenedor(nombre: Seq<char>, args: Seq<Expresion>, depuracion: Seq<char>, e: Expresion)
    ensures
        clase(nombre) is Columna ==> diseno_de_llamada(nombre, args, depuracion) == (
        Diseno::Column { children: disenos_de(args), gap: Decimal { bits: 0 } }),
        clase(nombre) is Fila ==> diseno_de_llamada(nombre, args, depuracion) == (Diseno::Row {
            children: disenos_de(args),
            gap: Decimal { bits: 0 },
        }),
        clase(nombre) is Pila ==> diseno_de_llamada(nombre, args, depuracion) == Diseno::ZStack(
            disenos_de(args),
        ),
        disenos_de(seq![e]) == (match diseno_de(e) {
            Some(d) => seq![d],
            None => Seq::empty(),
        }),
        disenos_de(Seq::empty()) == Seq::<Diseno>::empty(),
{
    let es = seq![e];
    assert(es.subrange(0, es.len() - 1) =~= Seq::<Expresion>::empty());
    assert(disenos_de(Seq::empty()) =~= Seq::<Diseno>::empty());
    assert(es[es.len() - 1] == e);
    if let Some(d) = diseno_de(e) {
        assert(Seq::<Diseno>::empty().push(d) =~= seq![d]);
    }
}

/// Whether an argument is there and is a text.
pub open spec fn hay_texto(args: Seq<Expresion>, i: int) -> bool {
    i < args.len() && args[i] is LiteralTexto
}

/// Whether an argument is there and is a name.
pub open spec fn hay_nombre(args: Seq<Expresion>, i: int) -> bool {
    i < args.len() && args[i] is Identificador
}

/// Whether an argument is there and is a reference to a name.
pub open spec fn hay_referencia(args: Seq<Expresion>, i: int) -> bool {
    i < args.len() && args[i] is Referencia && *args[i]->Referencia_expr is Identificador
}

/// A button has the text of its first argument and calls the function that its
/// second one names, by itself or by reference. What is not given that way is
/// empty.
pub proof fn ley_boton(nombre: Seq<char>, args: Seq<Expresion>, depuracion: Seq<char>)
    requires
        clase(nombre) is Boton,
    ensures
        ({
            let d = diseno_de_llamada(nombre, args, depuracion);
            &&& d is Button
            &&& hay_texto(args, 0) ==> d->Button_texto == args[0]->LiteralTexto_0@
            &&& !hay_texto(args, 0) ==> d->Button_texto.len() == 0
            &&& hay_nombre(args, 1) ==> d->Button_callback == args[1]->Identificador_nombre@
            &&& hay_referencia(args, 1) ==> d->Button_callback
                == (*args[1]->Referencia_expr)->Identificador_nombre@
            &&& !hay_nombre(args, 1) && !hay_referencia(args, 1) ==> d->Button_callback.len() == 0
        }),
{
    reveal_strlit("");
}

/// A text field is for the variable that its first argument names, by a name or by
/// a text, and has the text of its second one to stand in for a value.
pub proof fn ley_campo(nombre: Seq<char>, args: Seq<Expresion>, depuracion: Seq<char>)
    requires
        clase(nombre) is Entrada,
    ensures
        ({
            let d = diseno_de_llamada(nombre, args, depuracion);
            &&& d is TextInput
            &&& hay_texto(args, 0) ==> d->TextInput_variable == args[0]->LiteralTexto_0@
            &&& hay_nombre(args, 0) ==> d->TextInput_variable == args[0]->Identificador_nombre@
            &&& !hay_texto(args, 0) && !hay_nombre(args, 0) ==> d->TextInput_variable.len() == 0
            &&& hay_texto(args, 1) ==> d->TextInput_placeholder == args[1]->LiteralTexto_0@
            &&& !hay_texto(args, 1) ==> d->TextInput_placeholder.len() == 0
        }),
{
    reveal_strlit("");
}

/// A title has the text of its first argument; a label of a variable the one that
/// its first argument names, by a name or by a text; a spacer the size that its
/// first argument gives as a whole number, else ten.
pub proof fn ley_titulo_variable_y_espacio(
    nombre: Seq<char>,
    args: Seq<Expresion>,
    depuracion: Seq<char>,
)
    ensures
        ({
            let d = diseno_de_llamada(nombre, args, depuracion);
            &&& clase(nombre) is Titulo ==> {
                &&& d is Title
                &&& hay_texto(args, 0) ==> d->Title_0 == args[0]->LiteralTexto_0@
                &&& !hay_texto(args, 0) ==> d->Title_0.len() == 0
            }
            &&& clase(nombre) is EtiquetaDinamica ==> {
                &&& d is VariableLabel
                &&& hay_texto(args, 0) ==> d->VariableLabel_variable == args[0]->LiteralTexto_0@
                &&& hay_nombre(args, 0) ==> d->VariableLabel_variable
                    == args[0]->Identificador_nombre@
                &&& !hay_texto(args, 0) && !hay_nombre(args, 0)
                    ==> d->VariableLabel_variable.len() == 0
            }
            &&& clase(nombre) is Espacio ==> d == Diseno::Spacer(
                decimal_de_entero(
                    if 0 < args.len() && args[0] is LiteralNumero {
                        args[0]->LiteralNumero_0 as int
                    } else {
                        10
                    },
                ),
            )
        }),
{
    reveal_strlit("");
}

/// A label shows the variable that its first argument names, or the text that it
/// is, or else how the compiler prints it; without arguments it takes no room.
pub proof fn ley_etiqueta(nombre: Seq<char>, args: Seq<Expresion>, depuracion: Seq<char>)
    requires
        clase(nombre) is Etiqueta,
    ensures
        ({
            let d = diseno_de_llamada(nombre, args, depuracion);
            &&& args.len() == 0 ==> d == Diseno::Spacer(Decimal { bits: 0 })
            &&& hay_nombre(args, 0) ==> d == (Diseno::VariableLabel {
                variable: args[0]->Identificador_nombre@,
            })
            &&& hay_texto(args, 0) ==> d == (Diseno::Label { texto: args[0]->LiteralTexto_0@ })
            &&& args.len() > 0 && !hay_nombre(args, 0) && !hay_texto(args, 0) ==> d == (
            Diseno::Label { texto: depuracion })
        }),
{
}

/// How an argument of an unknown widget is written.
pub open spec fn escrito(e: Expresion) -> Seq<char> {
    match e {
        Expresion::LiteralTexto(t) => t@,
        Expresion::LiteralNumero(n) => texto_de_entero(n as int),
        _ => "?"@,
    }
}

/// A call of an unknown name is described by the name and its arguments in
/// parentheses: texts and whole numbers as they are, anything else as a question
/// mark, with a comma and a space between one and the next.
pub proof fn ley_desconocida(
    nombre: Seq<char>,
    args: Seq<Expresion>,
    e: Expresion,
    depuracion: Seq<char>,
)
    requires
        clase(nombre) is Desconocida,
    ensures
        diseno_de_llamada(nombre, args, depuracion) == Diseno::Unimplemented(
            nombre + "("@ + descripciones(args, args.len()) + ")"@,
        ),
        descripciones(Seq::empty(), 0) == Seq::<char>::empty(),
        descripciones(seq![e], 1) == escrito(e),
        args.len() > 0 ==> descripciones(args.push(e), args.len() + 1) == descripciones(
            args,
            args.len(),
        ) + ", "@ + escrito(e),
{
    reveal_strlit("");
    assert(""@ =~= Seq::<char>::empty());
    assert(seq![e][0] == e);
    lema_descripciones(args, args.push(e), args.len());
    assert(args.push(e)[args.len() as int] == e);
}

proof fn lema_descripciones(a: Seq<Expresion>, b: Seq<Expresion>, k: nat)
    requires
        k <= a.len() <= b.len(),
        forall|i: int| 0 <= i < a.len() ==> a[i] == b[i],
    ensures
        descripciones(a, k) == descripciones(b, k),
    decreases k,
{
    if k > 0 {
        assert(a[k - 1] == b[k - 1]);
        assert(a[0] == b[0]);
        lema_descripciones(a, b, (k - 1) as nat);
    }
}

/// The layout in a body is the first widget among its calls and expressions.
pub proof fn ley_primer_widget(a: Seq<Declaracion>, b: Seq<Declaracion>, d: Declaracion)
    ensures
        primer_diseno(a + b, 0) == (if primer_diseno(a, 0) is Some {
            primer_diseno(a, 0)
        } else {
            primer_diseno(b, 0)
        }),
        primer_diseno(seq![d], 0) == diseno_de_declaracion(d),
        primer_diseno(Seq::empty(), 0) is None,
        d matches Declaracion::LlamadaFuncion { nombre, argumentos, depuracion }
            ==> diseno_de_declaracion(d) == diseno_de(
            Expresion::LlamadaFuncion { nombre, argumentos, depuracion },
        ),
        d matches Declaracion::Expresion(e) ==> diseno_de_declaracion(d) == diseno_de(e),
        !(d is LlamadaFuncion) && !(d is Expresion) ==> diseno_de_declaracion(d) is None,
{
    lema_primer_widget(a, b, 0);
    reveal_with_fuel(primer_diseno, 2);
    assert(seq![d][0] == d);
}

proof fn lema_primer_widget(a: Seq<Declaracion>, b: Seq<Declaracion>, i: nat)
    requires
        i <= a.len(),
    ensures
        primer_diseno(a + b, i) == (if primer_diseno(a, i) is Some {
            primer_diseno(a, i)
        } else {
            primer_diseno(b, 0)
        }),
    decreases a.len() - i,
{
    if i < a.len() {
        assert((a + b)[i as int] == a[i as int]);
        lema_primer_widget(a, b, i + 1);
    } else {
        lema_cola_de_widgets(a, b, 0);
    }
}

proof fn lema_cola_de_widgets(a: Seq<Declaracion>, b: Seq<Declaracion>, k: nat)
    requires
        k <= b.len(),
    ensures
        primer_diseno(a + b, a.len() + k) == primer_diseno(b, k),
    decreases b.len() - k,
{
    if k < b.len() {
        assert((a + b)[(a.len() + k) as int] == b[k as int]);
        lema_cola_de_widgets(a, b, k + 1);
    }
}

/// The layout of a program is that of its first function `main` with a widget in
/// it.
pub proof fn ley_layout_de_main(ds: Seq<Declaracion>, i: int)
    requires
        0 <= i < ds.len(),
        da_layout(ds[i]),
        forall|j: int| 0 <= j < i ==> !da_layout(#[trigger] ds[j]),
    ensures
        Some(diseno_de_programa(ds, 0)) == primer_diseno(ds[i]->Funcion_cuerpo@, 0),
{
    lema_layout_de_main(ds, 0, i);
}

proof fn lema_layout_de_main(ds: Seq<Declaracion>, k: nat, i: int)
    requires
        k <= i < ds.len(),
        da_layout(ds[i]),
        forall|j: int| 0 <= j < i ==> !da_layout(#[trigger] ds[j]),
    ensures
        Some(diseno_de_programa(ds, k)) == primer_diseno(ds[i]->Funcion_cuerpo@, 0),
    decreases ds.len() - k,
{
    if k < i {
        assert(!da_layout(ds[k as int]));
        lema_layout_de_main(ds, k + 1, i);
    }
}

/// The children of a layout stand for themselves, one by one and in their order, in
/// each of the three containers.
pub proof fn ley_hijos_uno_a_uno(hijos: Vec<Layout>, gap: Decimal, i: int)
    requires
        0 <= i < hijos@.len(),
    ensures
        ({
            let c = (Layout::Column { children: hijos, gap })@;
            let f = (Layout::Row { children: hijos, gap })@;
            let p = Layout::ZStack(hijos)@;
            &&& c is Column && c->Column_gap == gap
            &&& f is Row && f->Row_gap == gap
            &&& p is ZStack
            &&& c->Column_children.len() == hijos@.len()
            &&& c->Column_children[i] == hijos@[i]@
            &&& f->Row_children == c->Column_children
            &&& p->ZStack_0 == c->Column_children
        }),
{
}

} // verus!
